use improve::fourier::{
    bin_frequency, energy, find_peaks, zero_pad, Peak, ScoringOptions, MAX_SPECTRUM_LEN,
    MAX_ZPADDING, PEAK_FLOOR_FACTOR,
};

#[test]
fn scoring_options_range_is_enforced() {
    assert!(ScoringOptions::new(0, 1).is_none());
    assert!(ScoringOptions::new(44100, 0).is_none());
    assert!(ScoringOptions::new(44100, 33).is_none());
    assert_eq!(
        ScoringOptions::new(88200, 32),
        Some(ScoringOptions { frequency: 88200, zpadding: 32 })
    );
    assert!(ScoringOptions { frequency: 1, zpadding: 1 }.is_valid());
    assert!(!ScoringOptions { frequency: 0, zpadding: 1 }.is_valid());
    assert!(!ScoringOptions { frequency: 1, zpadding: MAX_ZPADDING + 1 }.is_valid());
}

#[test]
fn padded_length_is_the_product() {
    let o = ScoringOptions::new(44100, 4).unwrap();
    assert_eq!(o.padded_len(8192), 32768);
    assert_eq!(ScoringOptions::new(44100, 1).unwrap().padded_len(32), 32);
    assert_eq!(ScoringOptions::new(44100, 32).unwrap().padded_len(1_048_576), MAX_SPECTRUM_LEN);
    assert_eq!(MAX_SPECTRUM_LEN, 33_554_432);
}

#[test]
fn zero_pad_appends_zeros() {
    let window = vec![1.5f32, -2.0, 3.0];
    assert_eq!(zero_pad(&window, 1, 0.0), window);
    assert_eq!(zero_pad(&window, 3, 0.0), vec![1.5, -2.0, 3.0, 0.0, 0.0, 0.0, 0.0, 0.0, 0.0]);
    assert_eq!(zero_pad(&Vec::<f32>::new(), 5, 0.0), Vec::<f32>::new());
    assert_eq!(zero_pad(&vec![7u8], 4, 9), vec![7, 9, 9, 9]);
}

#[test]
fn energy_is_the_sum_of_squares() {
    assert_eq!(energy(&Vec::new()), 0);
    assert_eq!(energy(&vec![3, 4]), 25);
    assert_eq!(energy(&vec![1, 2, 3, 4, 5]), 55);
    assert_eq!(energy(&vec![u32::MAX; 3]), 3 * (u32::MAX as u128) * (u32::MAX as u128));
}

#[test]
fn single_tone_gives_one_peak() {
    let mut spectrum = vec![1u32; 64];
    spectrum[10] = 1000;
    spectrum[54] = 1000;
    assert_eq!(find_peaks(&spectrum), vec![Peak { bin: 10, magnitude: 1000 }]);
}

#[test]
fn peaks_come_by_ascending_bin() {
    let mut spectrum = vec![0u32; 128];
    spectrum[40] = 500;
    spectrum[5] = 900;
    spectrum[20] = 700;
    spectrum[63] = 600;
    let peaks = find_peaks(&spectrum);
    assert_eq!(
        peaks,
        vec![
            Peak { bin: 5, magnitude: 900 },
            Peak { bin: 20, magnitude: 700 },
            Peak { bin: 40, magnitude: 500 },
            Peak { bin: 63, magnitude: 600 },
        ]
    );
}

#[test]
fn constant_term_and_upper_half_are_left_out() {
    let mut spectrum = vec![0u32; 64];
    spectrum[0] = 1000;
    assert!(find_peaks(&spectrum).is_empty());
    let mut spectrum = vec![0u32; 64];
    spectrum[32] = 1000;
    assert!(find_peaks(&spectrum).is_empty());
    let mut spectrum = vec![0u32; 64];
    spectrum[31] = 1000;
    assert_eq!(find_peaks(&spectrum), vec![Peak { bin: 31, magnitude: 1000 }]);
    let mut spectrum = vec![0u32; 65];
    spectrum[32] = 1000;
    assert_eq!(find_peaks(&spectrum), vec![Peak { bin: 32, magnitude: 1000 }]);
    spectrum[32] = 0;
    spectrum[33] = 1000;
    assert!(find_peaks(&spectrum).is_empty());
}

#[test]
fn short_spectra_have_no_peaks() {
    assert!(find_peaks(&Vec::new()).is_empty());
    assert!(find_peaks(&vec![5]).is_empty());
    assert!(find_peaks(&vec![0, 5]).is_empty());
    // three bins: power 25 * 3 = 75 against 4 * 25 = 100
    assert!(find_peaks(&vec![0, 5, 0]).is_empty());
    assert_eq!(find_peaks(&vec![0, 0, 5, 0, 0]), vec![Peak { bin: 2, magnitude: 5 }]);
}

#[test]
fn plateaus_and_slopes_are_no_peaks() {
    let mut spectrum = vec![0u32; 64];
    spectrum[10] = 1000;
    spectrum[11] = 1000;
    assert!(find_peaks(&spectrum).is_empty());
    let rising: Vec<u32> = (0..64).collect();
    assert!(find_peaks(&rising).is_empty());
}

#[test]
fn floor_is_four_times_the_mean_power() {
    assert_eq!(PEAK_FLOOR_FACTOR, 4);
    // power 4 * 16 bins = 64 against 4 * energy = 4 * (15 + 4) = 76
    let mut spectrum = vec![1u32; 16];
    spectrum[3] = 2;
    assert!(find_peaks(&spectrum).is_empty());
    // power 9 * 16 = 144 against 4 * (15 + 9) = 96
    spectrum[3] = 3;
    assert_eq!(find_peaks(&spectrum), vec![Peak { bin: 3, magnitude: 3 }]);
    // equality is not enough: power 16 * 5 = 80 against 4 * (4 + 16) = 80
    assert!(find_peaks(&vec![1, 1, 4, 1, 1]).is_empty());
    assert_eq!(find_peaks(&vec![1, 1, 5, 1, 1]), vec![Peak { bin: 2, magnitude: 5 }]);
}

#[test]
fn weak_local_maxima_are_dropped() {
    let mut spectrum = vec![10u32; 256];
    spectrum[20] = 5000;
    spectrum[60] = 11;
    spectrum[100] = 4000;
    assert_eq!(
        find_peaks(&spectrum),
        vec![Peak { bin: 20, magnitude: 5000 }, Peak { bin: 100, magnitude: 4000 }]
    );
}

#[test]
fn largest_magnitudes_do_not_overflow() {
    let mut spectrum = vec![u32::MAX - 1; 1024];
    spectrum[100] = u32::MAX;
    assert!(find_peaks(&spectrum).is_empty());
    let mut spectrum = vec![0u32; 1024];
    spectrum[100] = u32::MAX;
    assert_eq!(find_peaks(&spectrum), vec![Peak { bin: 100, magnitude: u32::MAX }]);
}

#[test]
fn bin_frequency_in_millihertz() {
    assert_eq!(bin_frequency(0, 44100, 1024), 0);
    assert_eq!(bin_frequency(1, 44100, 1024), 43_066);
    assert_eq!(bin_frequency(10, 44100, 4410), 100_000);
    assert_eq!(bin_frequency(511, 44100, 1024), 22_006_933);
    assert_eq!(bin_frequency(80, 88200, 16384), 430_664);
    assert_eq!(bin_frequency(16_777_215, u32::MAX, 33_554_432), 2_147_483_519_500);
}

#[test]
fn zero_padding_keeps_the_frequencies_of_the_bins() {
    for factor in 1usize..=32 {
        for bin in [0usize, 1, 7, 100, 4095] {
            assert_eq!(
                bin_frequency(bin * factor, 88200, 8192 * factor),
                bin_frequency(bin, 88200, 8192)
            );
        }
    }
}
