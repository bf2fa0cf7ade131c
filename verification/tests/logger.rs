use panel_core::log::BufferLogger;

/// Pops every buffered chunk and concatenates the wire bytes, as the
/// external consumer would.
fn drain_bytes(logger: &mut BufferLogger) -> Vec<u8> {
    let mut bytes = Vec::new();
    while let Some(chunk) = logger.pop_chunk() {
        bytes.extend(chunk);
    }
    bytes
}

/// Splits a wire-byte stream at the 0x00 frame separators, dropping empty
/// pieces (the encoder emits one leading separator before its first frame).
fn split_frames(bytes: &[u8]) -> Vec<Vec<u8>> {
    bytes.split(|b| *b == 0).filter(|f| !f.is_empty()).map(|f| f.to_vec()).collect()
}

#[test]
fn single_frame_hello() {
    let mut logger = BufferLogger::new();
    logger.acquire();
    logger.write(b"hello");
    assert!(!logger.overflowed());
    logger.release();
    assert!(!logger.taken());
    assert!(!logger.overflowed());

    let bytes = drain_bytes(&mut logger);
    // one complete frame: the first-ever frame carries a leading separator,
    // then the encoded payload, then the closing separator
    let mut expected = vec![0u8];
    expected.extend(rzcobs::encode(b"hello"));
    expected.push(0);
    assert_eq!(bytes, expected);

    let frames = split_frames(&bytes);
    assert_eq!(frames.len(), 1);
    let decoded = rzcobs::decode(&frames[0]).expect("malformed frame");
    assert_eq!(&decoded[..5], b"hello");
    assert!(decoded[5..].iter().all(|b| *b == 0));
}

#[test]
fn round_trip_within_one_frame() {
    let mut logger = BufferLogger::new();

    // a first frame consumes the encoder's one-time leading separator
    logger.acquire();
    logger.write(b"warmup");
    logger.release();
    drain_bytes(&mut logger);

    // fourteen bytes closing an encoder group exactly, so the decoder
    // reproduces them without padding
    let data: &[u8] = b"quadrature-ok\x00";
    logger.acquire();
    logger.write(&data[..7]);
    logger.write(&data[7..]);
    assert!(!logger.overflowed());
    logger.release();

    let bytes = drain_bytes(&mut logger);
    let frames = split_frames(&bytes);
    assert_eq!(frames.len(), 1);
    let decoded = rzcobs::decode(&frames[0]).expect("malformed frame");
    assert_eq!(decoded, data.to_vec());
}

#[test]
fn two_frames_stay_separated() {
    let mut logger = BufferLogger::new();
    logger.acquire();
    logger.write(b"first!!"); // 7 bytes: decodes without padding
    logger.release();
    logger.acquire();
    logger.write(b"second!");
    logger.release();

    let bytes = drain_bytes(&mut logger);
    let frames = split_frames(&bytes);
    assert_eq!(frames.len(), 2);
    let first = rzcobs::decode(&frames[0]).unwrap();
    let second = rzcobs::decode(&frames[1]).unwrap();
    assert_eq!(&first[..7], b"first!!");
    assert!(first[7..].iter().all(|b| *b == 0));
    assert_eq!(&second[..7], b"second!");
    assert!(second[7..].iter().all(|b| *b == 0));
}

#[test]
fn overflow_is_sticky_and_release_drains() {
    let mut logger = BufferLogger::new();
    logger.acquire();

    // the fresh frame already queued its one leading separator byte; fill
    // the rest of the 64-chunk capacity without overflowing
    let filler: Vec<Vec<u8>> = (0..63).map(|_| vec![7u8]).collect();
    logger.push_chunks(&filler);
    assert!(!logger.overflowed());

    // the next encoded byte cannot be queued: overflow, and it stays
    logger.write(b"x");
    assert!(logger.overflowed());
    logger.write(b"more");
    assert!(logger.overflowed());

    // release resynchronizes: nothing of the frame is left behind
    logger.release();
    assert!(!logger.taken());
    assert!(!logger.overflowed());
    assert!(logger.pop_chunk().is_none());
}

#[test]
fn oversized_chunk_sets_overflow() {
    let mut logger = BufferLogger::new();
    logger.acquire();
    logger.write_to_queue(&[1u8; 200]);
    assert!(logger.overflowed());
    // later, well-sized chunks of the same frame are dropped silently
    logger.write_to_queue(&[2u8; 4]);
    assert!(logger.overflowed());
    logger.release();
    assert!(logger.pop_chunk().is_none());
}

#[test]
fn frame_after_overflow_is_clean() {
    let mut logger = BufferLogger::new();
    logger.acquire();
    let filler: Vec<Vec<u8>> = (0..63).map(|_| vec![7u8]).collect();
    logger.push_chunks(&filler);
    logger.write(b"lost");
    assert!(logger.overflowed());
    logger.release();

    // the overflow of the previous frame does not taint the next one
    logger.acquire();
    assert!(!logger.overflowed());
    logger.write(b"fresh!!");
    logger.release();
    let bytes = drain_bytes(&mut logger);
    let frames = split_frames(&bytes);
    assert_eq!(frames.len(), 1);
    let decoded = rzcobs::decode(&frames[0]).unwrap();
    assert_eq!(&decoded[..7], b"fresh!!");
    assert!(decoded[7..].iter().all(|b| *b == 0));
}

#[test]
fn reentrancy_guard_is_observable() {
    // a frame in flight is visible to every other context through `taken`,
    // which the firmware front end tests (and aborts on) before acquiring
    let mut logger = BufferLogger::new();
    assert!(!logger.taken());
    logger.acquire();
    assert!(logger.taken());
    logger.release();
    assert!(!logger.taken());
}

#[test]
fn consumer_sees_chunks_in_fifo_order() {
    let mut logger = BufferLogger::new();
    logger.write_to_queue(&[1, 2]);
    logger.write_to_queue(&[3]);
    logger.write_to_queue(&[4, 5, 6]);
    assert_eq!(logger.pop_chunk(), Some(vec![1, 2]));
    assert_eq!(logger.pop_chunk(), Some(vec![3]));
    assert_eq!(logger.pop_chunk(), Some(vec![4, 5, 6]));
    assert_eq!(logger.pop_chunk(), None);
}

#[test]
fn get_queue_hands_the_consumer_end() {
    let mut logger = BufferLogger::new();
    logger.write_to_queue(&[9, 9]);
    let q = logger.get_queue();
    assert_eq!(q.dequeue(), Some(vec![9u8, 9]));
    assert_eq!(q.dequeue(), None);
}

#[test]
fn flush_is_a_no_op() {
    let mut logger = BufferLogger::new();
    logger.write_to_queue(&[8]);
    logger.flush();
    assert!(!logger.taken());
    assert_eq!(logger.pop_chunk(), Some(vec![8u8]));
}

#[test]
fn chunk_capacity_boundary() {
    let mut logger = BufferLogger::new();
    // exactly the chunk capacity still fits
    logger.write_to_queue(&[5u8; 128]);
    assert!(!logger.overflowed());
    assert_eq!(logger.pop_chunk(), Some(vec![5u8; 128]));
    // one byte more does not
    logger.write_to_queue(&[5u8; 129]);
    assert!(logger.overflowed());
    assert_eq!(logger.pop_chunk(), None);
}
