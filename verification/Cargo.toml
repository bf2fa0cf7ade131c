[package]
name = "panel_core"
version = "0.1.0"
edition = "2021"
publish = false

[dependencies]
defmt = "=1.1.1"
heapless = "=0.7.17"
critical-section = "=1.2.0"
cortex-m = "=0.7.9"
cortex-m-rtic = "=1.1.4"
asm-delay = "=1.0.0"
stm32f1xx-hal = { version = "=0.11.0", features = ["stm32f103", "medium"] }

[dev-dependencies]
rzcobs = "=0.1.2"
