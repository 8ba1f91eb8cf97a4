use gameassistant::transcript::{
    clean_transcript, is_long_enough, padded_sample_count, TokenCollector, MAX_DECODED_TOKENS,
};
use gameassistant::wav::pcm_to_wav;

#[test]
fn short_recordings_are_skipped() {
    assert!(!is_long_enough(3199));
    assert!(is_long_enough(3200));
}

#[test]
fn recordings_are_padded_to_an_even_number_of_frames() {
    assert_eq!(padded_sample_count(3200), 3200);
    assert_eq!(padded_sample_count(3201), 3520);
    assert_eq!(padded_sample_count(3360), 3520);
    assert_eq!(padded_sample_count(480_000), 480_000);
    assert_eq!(padded_sample_count(500_000), 480_000);
}

#[test]
fn decoding_ends_at_the_end_token() {
    let mut collector = TokenCollector::new(9);
    assert!(collector.offer(1));
    assert!(collector.offer(2));
    assert!(!collector.offer(9));
    assert_eq!(collector.tokens(), &vec![1, 2]);
}

#[test]
fn decoding_ends_at_a_token_repeated_too_often() {
    let mut collector = TokenCollector::new(9);
    for _ in 0..4 {
        assert!(collector.offer(5));
    }
    assert!(!collector.offer(5));
    assert_eq!(collector.tokens(), &vec![5, 5, 5, 5]);
    let mut collector = TokenCollector::new(9);
    for _ in 0..4 {
        assert!(collector.offer(0));
    }
    assert!(!collector.offer(0));
    assert_eq!(collector.tokens().len(), 4);
}

#[test]
fn decoding_is_bounded() {
    let mut collector = TokenCollector::new(9);
    let mut offered = 0u32;
    while collector.offer(10 + offered % 2) {
        offered += 1;
    }
    assert_eq!(collector.tokens().len(), MAX_DECODED_TOKENS);
}

#[test]
fn noise_is_removed_from_a_transcript() {
    assert_eq!(clean_transcript(" こんにちは "), "こんにちは");
    assert_eq!(clean_transcript("a,,,,,b,,c,d"), "abc,d");
    assert_eq!(clean_transcript("ご"), "");
    assert_eq!(clean_transcript(" . "), "");
    assert_eq!(clean_transcript("、"), "");
    assert_eq!(clean_transcript("。"), "");
    assert_eq!(clean_transcript("ごめん"), "ごめん");
    assert_eq!(clean_transcript(",,,,,,"), ",");
}

#[test]
fn a_sound_file_holds_header_and_samples() {
    let file = pcm_to_wav(&vec![1, -2, 32767], 16000).expect("memory can be written to");
    let mut wanted: Vec<u8> = Vec::new();
    wanted.extend_from_slice(b"RIFF");
    wanted.extend_from_slice(&42u32.to_le_bytes());
    wanted.extend_from_slice(b"WAVEfmt ");
    wanted.extend_from_slice(&16u32.to_le_bytes());
    wanted.extend_from_slice(&1u16.to_le_bytes());
    wanted.extend_from_slice(&1u16.to_le_bytes());
    wanted.extend_from_slice(&16000u32.to_le_bytes());
    wanted.extend_from_slice(&32000u32.to_le_bytes());
    wanted.extend_from_slice(&2u16.to_le_bytes());
    wanted.extend_from_slice(&16u16.to_le_bytes());
    wanted.extend_from_slice(b"data");
    wanted.extend_from_slice(&6u32.to_le_bytes());
    for sample in [1i16, -2, 32767] {
        wanted.extend_from_slice(&sample.to_le_bytes());
    }
    assert_eq!(file, wanted);
    assert_eq!(pcm_to_wav(&Vec::new(), 8000).unwrap().len(), 44);
}
