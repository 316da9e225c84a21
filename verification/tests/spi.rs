use ferrino::spi::{
    read_actions, word_bits, word_from_bits, words_from_samples, write_actions, PinAction,
};

#[test]
fn bits_most_significant_first() {
    let bits = word_bits(0x8000_0001);
    assert_eq!(bits.len(), 32);
    assert!(bits[0]);
    assert!(bits[1..31].iter().all(|b| !b));
    assert!(bits[31]);
    assert_eq!(word_bits(0), vec![false; 32]);
    assert_eq!(word_bits(u32::MAX), vec![true; 32]);
}

#[test]
fn read_of_written_word() {
    for w in [0u32, 1, 0xDEAD_BEEF, 0x8000_0000, 0x1234_5678, u32::MAX] {
        assert_eq!(word_from_bits(&word_bits(w)), w);
    }
}

#[test]
fn read_assembles_msb_first() {
    assert_eq!(word_from_bits(&vec![true, false, true]), 5);
    assert_eq!(word_from_bits(&Vec::new()), 0);
    let mut bits = vec![false; 32];
    bits[0] = true;
    assert_eq!(word_from_bits(&bits), 0x8000_0000);
}

#[test]
fn write_of_no_words_only_turns_the_line() {
    assert_eq!(
        write_actions(&Vec::new()),
        vec![PinAction::DataOutput, PinAction::ClockLow, PinAction::DataInput]
    );
}

#[test]
fn write_of_one_word() {
    let actions = write_actions(&vec![0xA000_0000]);
    assert_eq!(actions.len(), 96 + 3);
    assert_eq!(actions[0], PinAction::DataOutput);
    assert_eq!(
        &actions[1..7],
        &[
            PinAction::ClockLow,
            PinAction::DataHigh,
            PinAction::ClockHigh,
            PinAction::ClockLow,
            PinAction::DataLow,
            PinAction::ClockHigh,
        ]
    );
    assert_eq!(&actions[7..10], &[PinAction::ClockLow, PinAction::DataHigh, PinAction::ClockHigh]);
    assert_eq!(actions[97], PinAction::ClockLow);
    assert_eq!(actions[98], PinAction::DataInput);
}

#[test]
fn write_of_two_words_in_order() {
    let actions = write_actions(&vec![0, u32::MAX]);
    assert_eq!(actions.len(), 2 * 96 + 3);
    assert_eq!(actions[2], PinAction::DataLow);
    assert_eq!(actions[95], PinAction::DataLow);
    assert_eq!(actions[98], PinAction::DataHigh);
    assert_eq!(actions[191], PinAction::DataHigh);
}

#[test]
fn read_turns_the_line_then_samples_before_each_rising_edge() {
    let actions = read_actions(2);
    assert_eq!(actions.len(), 2 * 96 + 1);
    assert_eq!(actions[0], PinAction::DataInput);
    for (j, a) in actions[1..].iter().enumerate() {
        let expected = match j % 3 {
            0 => PinAction::SampleData,
            1 => PinAction::ClockHigh,
            _ => PinAction::ClockLow,
        };
        assert_eq!(*a, expected);
    }
    assert_eq!(actions.iter().filter(|a| **a == PinAction::SampleData).count(), 64);
    assert_eq!(read_actions(0), vec![PinAction::DataInput]);
}

#[test]
fn samples_decode_word_by_word() {
    let mut samples = vec![false; 64];
    samples[31] = true;
    samples[32] = true;
    assert_eq!(words_from_samples(&samples), vec![1, 0x8000_0000]);
    assert_eq!(words_from_samples(&Vec::new()), Vec::<u32>::new());
}

#[test]
fn read_of_written_words() {
    let words = vec![0xDEAD_BEEF, 0, 0x0123_4567, u32::MAX];
    // The bits a write drives at its rising clock edges, echoed back.
    let actions = write_actions(&words);
    let echoed: Vec<bool> = actions
        .windows(2)
        .filter(|w| w[1] == PinAction::ClockHigh)
        .map(|w| w[0] == PinAction::DataHigh)
        .collect();
    assert_eq!(echoed.len(), 32 * words.len());
    assert_eq!(words_from_samples(&echoed), words);
}

#[test]
fn write_never_samples() {
    assert!(!write_actions(&vec![1, 2, 3]).contains(&PinAction::SampleData));
}
