use rholive::pcm::{add_wav_header, le_bytes_to_pcm, mix_chunk, mix_sample, i16_slice_to_u8};

#[test]
fn mixing_weights_seven_to_three() {
    assert_eq!(mix_sample(10, 20), 13);
    assert_eq!(mix_sample(-10, -20), -13);
    assert_eq!(mix_sample(32767, 32767), 32767);
    assert_eq!(mix_sample(-32768, -32768), -32768);
    assert_eq!(mix_chunk(&vec![10, 10], &vec![0], 3), vec![7, 7, 0]);
}

#[test]
fn pcm_bytes_round_trip() {
    let s = vec![0i16, 1, -1, 256, -32768, 32767];
    let b = i16_slice_to_u8(&s);
    assert_eq!(b, vec![0, 0, 1, 0, 255, 255, 0, 1, 0, 128, 255, 127]);
    assert_eq!(le_bytes_to_pcm(&b), s);
    assert_eq!(le_bytes_to_pcm(&[1, 0, 7]), vec![1]);
}

#[test]
fn wav_header_layout() {
    let wav = add_wav_header(&[1, 2, 3, 4], 16000, 1);
    assert_eq!(wav.len(), 48);
    assert_eq!(&wav[0..4], b"RIFF");
    assert_eq!(&wav[4..8], &40u32.to_le_bytes());
    assert_eq!(&wav[8..16], b"WAVEfmt ");
    assert_eq!(&wav[16..20], &16u32.to_le_bytes());
    assert_eq!(&wav[20..22], &1u16.to_le_bytes());
    assert_eq!(&wav[22..24], &1u16.to_le_bytes());
    assert_eq!(&wav[24..28], &16000u32.to_le_bytes());
    assert_eq!(&wav[28..32], &32000u32.to_le_bytes());
    assert_eq!(&wav[32..34], &2u16.to_le_bytes());
    assert_eq!(&wav[34..36], &16u16.to_le_bytes());
    assert_eq!(&wav[36..40], b"data");
    assert_eq!(&wav[40..44], &4u32.to_le_bytes());
    assert_eq!(&wav[44..], &[1, 2, 3, 4]);
}
