use newscenter::pcm::{split_samples, PcmError, PcmFormat, WavSplitter};

fn mono() -> PcmFormat {
    PcmFormat { channels: 1, sample_rate: 16_000, bits_per_sample: 16 }
}

fn ramp(len: usize) -> Vec<i16> {
    (0..len).map(|i| (i % 30_011) as i16).collect()
}

#[test]
fn thirty_seconds_in_tens_give_three_files() {
    let samples = ramp(30 * 16_000);
    let chunks = WavSplitter::new(10).split_wav(&mono(), &samples).unwrap();
    assert_eq!(chunks.len(), 3);
    for (i, chunk) in chunks.iter().enumerate() {
        assert_eq!(chunk.samples.len(), 160_000);
        assert_eq!(chunk.index, i as u64 + 1);
        assert_eq!(chunk.samples[..], samples[i * 160_000..(i + 1) * 160_000]);
    }
    let names: Vec<&str> = chunks.iter().map(|chunk| chunk.file_name.as_str()).collect();
    assert_eq!(names, vec!["chunk_001.wav", "chunk_002.wav", "chunk_003.wav"]);
}

#[test]
fn the_chunks_put_together_are_the_source() {
    for len in [0usize, 1, 6, 7, 8, 13, 14, 15, 100] {
        let samples = ramp(len);
        for size in [1usize, 2, 7, 14, 99, 100, 101, usize::MAX] {
            let parts = split_samples(&samples, size);
            let total: usize = parts.iter().map(|part| part.len()).sum();
            assert_eq!(total, len);
            assert_eq!(parts.concat(), samples);
            assert_eq!(parts.len(), len / size + usize::from(len % size != 0));
            let expected: Vec<Vec<i16>> = samples.chunks(size).map(|part| part.to_vec()).collect();
            assert_eq!(parts, expected);
        }
    }
}

#[test]
fn the_last_chunk_holds_what_is_left() {
    let stereo = PcmFormat { channels: 2, sample_rate: 8_000, bits_per_sample: 16 };
    let samples = ramp(2 * 8_000 * 5 / 2);
    let chunks = WavSplitter::new(1).split_wav(&stereo, &samples).unwrap();
    let lengths: Vec<usize> = chunks.iter().map(|chunk| chunk.samples.len()).collect();
    assert_eq!(lengths, vec![16_000, 16_000, 8_000]);
    assert_eq!(WavSplitter::new(1).chunk_size(&stereo), 16_000);
}

#[test]
fn a_short_source_is_one_file() {
    let samples = ramp(1_000);
    let chunks = WavSplitter::new(300).split_wav(&mono(), &samples).unwrap();
    assert_eq!(chunks.len(), 1);
    assert_eq!(chunks[0].samples, samples);
    assert_eq!(chunks[0].file_name, "chunk_001.wav");
    assert_eq!(WavSplitter::new(300).split_wav(&mono(), &Vec::new()).unwrap().len(), 0);
}

#[test]
fn a_chunk_without_samples_is_an_error() {
    let samples = ramp(10);
    assert_eq!(WavSplitter::new(0).split_wav(&mono(), &samples), Err(PcmError::EmptyChunk));
    let silent = PcmFormat { channels: 0, sample_rate: 16_000, bits_per_sample: 16 };
    assert_eq!(WavSplitter::new(10).split_wav(&silent, &samples), Err(PcmError::EmptyChunk));
    let still = PcmFormat { channels: 1, sample_rate: 0, bits_per_sample: 16 };
    assert_eq!(WavSplitter::new(10).split_wav(&still, &samples), Err(PcmError::EmptyChunk));
}

#[test]
fn the_largest_chunk_size_does_not_overflow() {
    let wide = PcmFormat { channels: u16::MAX, sample_rate: u32::MAX, bits_per_sample: 16 };
    let splitter = WavSplitter::new(u32::MAX);
    assert_eq!(splitter.chunk_duration(), u32::MAX);
    assert_eq!(splitter.chunk_size(&wide), u32::MAX as u128 * u32::MAX as u128 * u16::MAX as u128);
    let samples = ramp(5);
    let chunks = splitter.split_wav(&wide, &samples).unwrap();
    assert_eq!(chunks.len(), 1);
    assert_eq!(chunks[0].samples, samples);
}

use hound::{SampleFormat, WavReader, WavSpec, WavWriter};
use std::io::Cursor;

fn wav_bytes(spec: WavSpec, samples: &[i16]) -> Vec<u8> {
    let mut bytes = Cursor::new(Vec::new());
    {
        let mut writer = WavWriter::new(&mut bytes, spec).unwrap();
        for &sample in samples {
            writer.write_sample(sample).unwrap();
        }
        writer.finalize().unwrap();
    }
    bytes.into_inner()
}

#[test]
fn thirty_seconds_of_wav_become_three_files_of_ten() {
    let spec = WavSpec {
        channels: 1,
        sample_rate: 16_000,
        bits_per_sample: 16,
        sample_format: SampleFormat::Int,
    };
    let source = wav_bytes(spec, &ramp(30 * 16_000));

    let reader = WavReader::new(Cursor::new(source)).unwrap();
    let read_spec = reader.spec();
    let samples: Vec<i16> = reader.into_samples::<i16>().collect::<Result<_, _>>().unwrap();
    let format = PcmFormat {
        channels: read_spec.channels,
        sample_rate: read_spec.sample_rate,
        bits_per_sample: read_spec.bits_per_sample,
    };
    let chunks = WavSplitter::new(10).split_wav(&format, &samples).unwrap();
    assert_eq!(chunks.len(), 3);

    let mut rejoined: Vec<i16> = Vec::new();
    for chunk in &chunks {
        let file = wav_bytes(read_spec, &chunk.samples);
        let reader = WavReader::new(Cursor::new(file)).unwrap();
        assert_eq!(reader.spec(), spec);
        assert_eq!(reader.duration(), 160_000);
        let written: Vec<i16> = reader.into_samples::<i16>().collect::<Result<_, _>>().unwrap();
        assert_eq!(written.len(), 160_000);
        rejoined.extend(written);
    }
    assert_eq!(rejoined, samples);
}
