use command_rs::{Accumulator, Command, COMMAND_BUF_SIZE, TERMINATOR};

fn feed_str(acc: &mut Accumulator, input: &str) -> Vec<Option<Command>> {
    input.bytes().map(|b| acc.feed_byte(b)).collect()
}

#[test]
fn terminator_constant_is_semicolon() {
    assert_eq!(TERMINATOR, b';');
}

#[test]
fn help_line_dispatches_help() {
    let mut acc = Accumulator::new();
    let outcomes = feed_str(&mut acc, "help;");
    assert_eq!(outcomes.last().unwrap(), &Some(Command::Help));
    assert!(outcomes[..4].iter().all(|o| o.is_none()));
    assert_eq!(acc.buffered_len(), 0);
}

#[test]
fn every_token_dispatches_its_command() {
    let mut acc = Accumulator::new();
    assert_eq!(feed_str(&mut acc, "help;").last().unwrap(), &Some(Command::Help));
    assert_eq!(feed_str(&mut acc, "toggle;").last().unwrap(), &Some(Command::ToggleDisplay));
    assert_eq!(feed_str(&mut acc, "log_board;").last().unwrap(), &Some(Command::LogBoard));
    assert_eq!(feed_str(&mut acc, "version;").last().unwrap(), &Some(Command::Version));
}

#[test]
fn bogus_line_dispatches_nothing_and_clears() {
    let mut acc = Accumulator::new();
    let outcomes = feed_str(&mut acc, "bogus;");
    assert!(outcomes.iter().all(|o| o.is_none()));
    assert_eq!(acc.buffered_len(), 0);
    // The accumulator is ready for the next command.
    let outcomes = feed_str(&mut acc, "help;");
    assert_eq!(outcomes.last().unwrap(), &Some(Command::Help));
}

#[test]
fn empty_line_dispatches_nothing() {
    let mut acc = Accumulator::new();
    assert_eq!(acc.feed_byte(b';'), None);
    assert_eq!(acc.buffered_len(), 0);
}

#[test]
fn case_sensitive_no_trimming() {
    let mut acc = Accumulator::new();
    assert_eq!(feed_str(&mut acc, "Help;").last().unwrap(), &None);
    assert_eq!(feed_str(&mut acc, " help;").last().unwrap(), &None);
    assert_eq!(feed_str(&mut acc, "help ;").last().unwrap(), &None);
    assert_eq!(feed_str(&mut acc, "helpo;").last().unwrap(), &None);
    assert_eq!(feed_str(&mut acc, "hel;").last().unwrap(), &None);
}

#[test]
fn buffer_never_exceeds_capacity() {
    let mut acc = Accumulator::new();
    for k in 0..(3 * COMMAND_BUF_SIZE) {
        acc.feed_byte(b'a' + (k % 26) as u8);
        assert!(acc.buffered_len() <= COMMAND_BUF_SIZE);
    }
}

#[test]
fn overflow_keeps_only_the_newest_bytes() {
    // N + 5 distinct non-terminator bytes, no terminator anywhere.
    let mut acc = Accumulator::new();
    let input: Vec<u8> = (0..COMMAND_BUF_SIZE as u8 + 5).map(|k| k + 97).collect();
    for &b in &input {
        assert_eq!(acc.feed_byte(b), None);
    }
    // The overflow boundary dropped the first N bytes; the buffer holds the
    // last 5, and the accumulator is still ready.
    assert_eq!(acc.buffered(), &input[COMMAND_BUF_SIZE..]);
    assert_eq!(acc.feed_byte(b';'), None);
    assert_eq!(acc.buffered_len(), 0);
    let outcomes: Vec<_> = "toggle;".bytes().map(|b| acc.feed_byte(b)).collect();
    assert_eq!(outcomes.last().unwrap(), &Some(Command::ToggleDisplay));
}

#[test]
fn token_split_by_overflow_is_not_recognized() {
    // A token whose first half fell to the overflow policy does not match.
    let mut acc = Accumulator::new();
    for _ in 0..COMMAND_BUF_SIZE - 3 {
        acc.feed_byte(b'x');
    }
    let outcomes = feed_str(&mut acc, "toggle;");
    assert!(outcomes.iter().all(|o| o.is_none()));
}

#[test]
fn command_straddling_overflow_boundary_is_recognized() {
    // The overflow clear drops the noise; the token accumulated afterwards
    // still parses once its terminator arrives.
    let mut acc = Accumulator::new();
    for _ in 0..COMMAND_BUF_SIZE {
        acc.feed_byte(b'x');
    }
    let outcomes = feed_str(&mut acc, "help;");
    assert_eq!(outcomes.last().unwrap(), &Some(Command::Help));
}
