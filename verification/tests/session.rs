use rayterm::term::{enter_sequence, leave_sequence, Term, TermError, TermRegistry};

#[test]
fn session_is_exclusive() {
    let mut reg = TermRegistry::new();
    let term = Term::new(&mut reg, true, true, 80, 24).unwrap();
    assert_eq!(term.width, 80);
    assert_eq!(term.height, 24);
    // A second open while the first session is live is refused.
    assert_eq!(
        Term::new(&mut reg, true, true, 80, 24),
        Err(TermError::AlreadyOpen)
    );
    // After a clean close a new session opens again.
    term.close(&mut reg);
    let term = Term::new(&mut reg, true, true, 132, 43).unwrap();
    assert_eq!(term.viewport(), (132, 41));
    term.close(&mut reg);
}

#[test]
fn open_failures_in_order() {
    let mut reg = TermRegistry::new();
    assert_eq!(
        Term::new(&mut reg, false, true, 80, 24),
        Err(TermError::NotATerminal)
    );
    assert_eq!(
        Term::new(&mut reg, true, true, 0, 24),
        Err(TermError::DimensionQueryFailed)
    );
    assert_eq!(
        Term::new(&mut reg, true, true, 80, 0),
        Err(TermError::DimensionQueryFailed)
    );
    assert_eq!(
        Term::new(&mut reg, true, false, 80, 24),
        Err(TermError::DeviceConfigFailed)
    );
    // A failed open leaves no live session behind.
    assert!(Term::new(&mut reg, true, true, 80, 24).is_ok());
}

#[test]
fn control_byte_streams_are_exact() {
    assert_eq!(enter_sequence(), b"\x1b[?1049h\x1b[?25l".to_vec());
    assert_eq!(leave_sequence(), b"\x1b[?1049l\x1b[?25h".to_vec());
}

#[test]
fn write_streams() {
    let mut reg = TermRegistry::new();
    let term = Term::new(&mut reg, true, true, 80, 24).unwrap();
    assert_eq!(term.put_buffer(&b"AB".to_vec()), b"\x1b[HAB".to_vec());
    assert_eq!(term.put_partial_buffer(&b"xyz".to_vec()), b"xyz".to_vec());
    assert_eq!(term.put_buffer(&Vec::new()), b"\x1b[H".to_vec());
    term.close(&mut reg);
}

#[test]
fn input_chunks_concatenate_in_order() {
    let mut reg = TermRegistry::new();
    let term = Term::new(&mut reg, true, true, 80, 24).unwrap();
    let chunks = vec![vec![1u8, 2, 3], vec![], vec![4, 5]];
    assert_eq!(term.get_input_buffer(&chunks), vec![1u8, 2, 3, 4, 5]);
    let none: Vec<Vec<u8>> = Vec::new();
    assert_eq!(term.get_input_buffer(&none), Vec::<u8>::new());
    term.close(&mut reg);
}
