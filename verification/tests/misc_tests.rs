use sharp::encoding::{encode_base64, png_data_url_of};
use sharp::messages::{
    capture_file_name, click_label, clicked_message, greet, move_label, moved_message,
    pressed_message, recording_file_name, typed_message,
};
use sharp::transcript::{
    chunk_text, final_batch_ready, final_wav, periodic_batch_ready, periodic_wav, transcription_result, Session,
    TranscriptBuffer,
};

#[test]
fn greeting() {
    assert_eq!(greet("Ada"), "Hello, Ada! You've been greeted from Rust!");
}

#[test]
fn gui_labels() {
    assert_eq!(click_label("left", -5, 10), "left click at (-5, 10)");
    assert_eq!(clicked_message(0, 2147483647), "Clicked at (0, 2147483647)");
    assert_eq!(move_label(-2147483648, 3), "(-2147483648, 3)");
    assert_eq!(moved_message(100, 200), "Mouse moved to (100, 200)");
    assert_eq!(typed_message("héllo"), "Typed 6 chars");
    assert_eq!(pressed_message("ctrl+c"), "Pressed: ctrl+c");
}

#[test]
fn capture_names() {
    assert_eq!(capture_file_name(1700000000), "glidewin_capture_1700000000.png");
    assert_eq!(recording_file_name(0), "glidewin_recording_0.wav");
}

#[test]
fn base64_standard_with_padding() {
    assert_eq!(encode_base64(b""), "");
    assert_eq!(encode_base64(b"M"), "TQ==");
    assert_eq!(encode_base64(b"Ma"), "TWE=");
    assert_eq!(encode_base64(b"Man"), "TWFu");
    assert_eq!(encode_base64(&[0xfb, 0xff, 0xbf]), "+/+/");
    assert_eq!(png_data_url_of(b"hi"), "data:image/png;base64,aGk=");
}

#[test]
fn transcript_buffer_queues_and_joins() {
    let mut b = TranscriptBuffer::new();
    b.push_samples(&[1, 2, 3]);
    b.push_samples(&[4]);
    assert_eq!(b.take_pending(), vec![1, 2, 3, 4]);
    assert!(b.take_pending().is_empty());
    assert!(b.add_chunk("Hello"));
    assert!(!b.add_chunk(""));
    assert!(b.add_chunk("world"));
    assert_eq!(b.transcript_text(), "Hello world");
}

#[test]
fn batch_thresholds() {
    assert!(periodic_batch_ready(96000, 48000, 1));
    assert!(!periodic_batch_ready(95999, 48000, 1));
    assert!(periodic_batch_ready(176400, 44100, 2));
    assert!(final_batch_ready(24000, 48000, 1));
    assert!(!final_batch_ready(23999, 48000, 1));
    assert!(final_batch_ready(0, 0, 0));
}

#[test]
fn transcription_texts() {
    assert_eq!(chunk_text(Some("  hi there \n".to_string())), "hi there");
    assert_eq!(chunk_text(None), "");
    assert_eq!(transcription_result(Some(" raw ".to_string())), Ok(" raw ".to_string()));
    assert_eq!(
        transcription_result(None),
        Err("No 'text' field in API response".to_string())
    );
}

#[test]
fn one_recording_at_a_time() {
    let mut s: Session<u32> = Session::idle();
    assert!(!s.is_active());
    assert_eq!(s.end(), Err("Not currently recording".to_string()));
    assert!(s.begin(7).is_ok());
    assert!(s.is_active());
    match s.begin(8) {
        Err((e, back)) => {
            assert_eq!(e, "Already recording");
            assert_eq!(back, 8);
        }
        Ok(()) => panic!("second recording accepted"),
    }
    assert_eq!(s.end(), Ok(7));
    assert!(!s.is_active());
    assert!(s.begin(9).is_ok());
}

#[test]
fn idle_check_before_recording() {
    let mut s: Session<&str> = Session::idle();
    assert_eq!(s.check_idle(), Ok(()));
    s.begin("mic").unwrap();
    assert_eq!(s.check_idle(), Err("Already recording".to_string()));
}

#[test]
fn periodic_batches_become_wav_files_when_long_enough() {
    // Two seconds at 4 frames per second, mono: 8 samples are enough, 7 are not.
    assert!(periodic_wav(&[1, 2, 3, 4, 5, 6, 7], 4, 1).is_none());
    let wav = periodic_wav(&[1, 2, 3, 4, 5, 6, 7, 8], 4, 1).expect("long enough");
    assert_eq!(wav.len(), 44 + 16);
    assert_eq!(&wav[0..4], b"RIFF");
    assert_eq!(&wav[8..12], b"WAVE");
    assert_eq!(&wav[44..46], &[1, 0]);
    assert_eq!(&wav[58..60], &[8, 0]);
}

#[test]
fn final_batches_need_half_a_second() {
    // Half a second at 8 frames per second, stereo: 8 samples.
    assert!(final_wav(&[0; 7], 8, 2).is_none());
    let wav = final_wav(&[-1; 8], 8, 2).expect("long enough");
    assert_eq!(wav.len(), 44 + 16);
    assert_eq!(&wav[44..46], &[0xff, 0xff]);
    // More than two channels take the extensible header.
    let wav3 = final_wav(&[0; 12], 8, 3).expect("long enough");
    assert_eq!(wav3.len(), 68 + 24);
}
