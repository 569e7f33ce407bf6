use epoch_services::workshop::{fits, gb, verdict, Machine};

fn apple(ram: u64) -> Machine {
    Machine { unified: false, gpu: None, vram_total: None, vram_free: None, ram_total: Some(ram) }
}

#[test]
fn an_apple_machine_is_weighed_against_its_free_unified_memory_and_told_so() {
    let m2 = Machine {
        gpu: Some("Apple M2".to_owned()),
        vram_total: Some(17_179_869_184),
        vram_free: Some(7_100_000_000),
        ram_total: Some(17_179_869_184),
        unified: true,
    };
    // What the card says of each size, against its 7.10 GB free: 17.7 GB does not fit, 4 GB does.
    let big = verdict(Some(17_700_000_000), &m2, Some(false));
    assert_eq!(big.runs, Some(false));
    assert!(big.said.contains("unified memory"), "{}", big.said);
    assert!(!big.said.contains("spill"), "there is nothing to spill into on one pool: {}", big.said);

    let small = verdict(Some(4_000_000_000), &m2, Some(true));
    assert_eq!(small.runs, Some(true));
    assert!(small.said.contains("unified memory"), "{}", small.said);

    let card = Machine {
        gpu: Some("NVIDIA GeForce RTX 4070 SUPER".to_owned()),
        vram_total: Some(12_900_000_000),
        vram_free: Some(11_000_000_000),
        ram_total: Some(33_900_000_000),
        unified: false,
    };
    assert!(verdict(Some(17_700_000_000), &card, Some(false)).said.contains("spill into system memory"));
}

#[test]
fn the_model_that_was_already_pulled_would_have_been_refused() {
    let said = verdict(Some(17_700_000_000), &apple(17_179_869_184), None);
    assert_eq!(said.runs, Some(false));
    assert!(said.said.contains("17.7 GB"), "{}", said.said);
    assert!(said.said.contains("17.2 GB"), "{}", said.said);
}

#[test]
fn a_model_with_room_to_spare_is_allowed() {
    let said = verdict(Some(5_000_000_000), &apple(17_179_869_184), None);
    assert_eq!(said.runs, Some(true));
}

#[test]
fn a_tenth_is_left_for_the_machine_to_keep_running() {
    let exactly = 16_000_000_000;
    assert_eq!(verdict(Some(exactly), &apple(exactly), None).runs, Some(false));
    assert_eq!(verdict(Some(exactly), &apple(exactly + exactly / 10), None).runs, Some(true));
}

#[test]
fn a_machine_that_cannot_be_read_says_nothing_rather_than_no() {
    let blind = Machine { unified: false, gpu: None, vram_total: None, vram_free: None, ram_total: None };
    assert_eq!(verdict(Some(5_000_000_000), &blind, None).runs, None);
}

#[test]
fn an_unweighed_offer_is_not_a_verdict() {
    assert_eq!(verdict(None, &apple(17_179_869_184), None).runs, None);
    assert_eq!(verdict(None, &apple(17_179_869_184), None).said, "This has not been weighed yet.");
}

#[test]
fn a_card_is_asked_about_before_system_memory() {
    let card = Machine {
        unified: false,
        gpu: Some("a card".into()),
        vram_total: Some(12_000_000_000),
        vram_free: Some(6_000_000_000),
        ram_total: Some(64_000_000_000),
    };
    // The card's own answer for 9 GB against 6 GB free.
    assert_eq!(verdict(Some(9_000_000_000), &card, Some(false)).runs, Some(false));
    assert_eq!(fits(9_000_000_000, &card, Some(false)), Some(false));
}

#[test]
fn sizes_are_read_in_tenths_of_a_gigabyte() {
    assert_eq!(gb(17_179_869_184), "17.2 GB");
    assert_eq!(gb(0), "0.0 GB");
    assert_eq!(gb(10_624_771_968), "10.6 GB");
    assert_eq!(gb(949_999_999), "0.9 GB");
    assert_eq!(gb(950_000_001), "1.0 GB");
}

#[test]
fn every_sentence_of_the_verdict() {
    let card = Machine { unified: false, gpu: Some("c".into()), vram_total: None, vram_free: Some(1), ram_total: None };
    assert_eq!(verdict(Some(1), &card, Some(true)).said, "Fits in free video memory.");
    assert_eq!(
        verdict(Some(1), &card, Some(false)).said,
        "Larger than free video memory. It will spill into system memory and run slowly."
    );
    let blind = Machine { unified: false, gpu: None, vram_total: None, vram_free: None, ram_total: None };
    assert_eq!(
        verdict(Some(1), &blind, None).said,
        "This machine's memory could not be read, so nobody can say."
    );
    assert_eq!(
        verdict(Some(5_000_000_000), &apple(17_179_869_184), None).said,
        "Fits in this machine's 17.2 GB of memory."
    );
}

#[test]
fn a_size_near_a_half_is_printed_as_the_float_is() {
    assert_eq!(gb(150_000_000), "0.1 GB");
    assert_eq!(gb(250_000_000), "0.2 GB");
    assert_eq!(gb(350_000_000), "0.3 GB");
    assert_eq!(gb(450_000_000), "0.5 GB");
    assert_eq!(gb(u64::MAX), "18446744073.7 GB");
}

#[test]
fn every_size_reads_as_the_standard_library_prints_it() {
    let mut samples: Vec<u64> = Vec::new();
    for t in 0..2_000u64 {
        samples.push(t * 50_000_000);
        samples.push(t * 50_000_000 + 1);
        samples.push((t * 50_000_000).saturating_sub(1));
    }
    let mut x: u64 = 0x9E37_79B9_7F4A_7C15;
    for _ in 0..20_000 {
        x ^= x << 13;
        x ^= x >> 7;
        x ^= x << 17;
        samples.push(x);
        samples.push(x >> 20);
        samples.push((x >> 30) / 50_000_000 * 50_000_000);
        samples.push((x >> 8) / 50_000_000 * 50_000_000);
    }
    for shift in 50..64 {
        samples.push(1u64 << shift);
        samples.push((1u64 << shift) + 1);
        samples.push((1u64 << shift) - 1);
    }
    for b in samples {
        assert_eq!(gb(b), format!("{:.1} GB", b as f64 / 1_000_000_000.0), "{b}");
    }
}
