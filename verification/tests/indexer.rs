use index_pgn::emit::{emit, EncodingError};
use index_pgn::indexer::{parse_rating, Indexer, Skip};
use index_pgn::time_control::{TimeControl, TimeControlError};

const NINE_TENTHS: u64 = 16602069666338596454;

#[test]
fn a_new_indexer_knows_nothing() {
    let indexer = Indexer::new();
    assert_eq!(indexer.white_elo(), 0);
    assert_eq!(indexer.black_elo(), 0);
    assert_eq!(indexer.time_control(), TimeControl::Correspondence);
    assert!(indexer.skip());
}

#[test]
fn ratings_are_read_from_their_headers() {
    let mut indexer = Indexer::new();
    indexer.begin_headers();
    assert_eq!(indexer.header(b"WhiteElo", b"1500"), Ok(()));
    assert_eq!(indexer.header(b"BlackElo", b"1733"), Ok(()));
    assert_eq!(indexer.white_elo(), 1500);
    assert_eq!(indexer.black_elo(), 1733);
    assert_eq!(indexer.time_control(), TimeControl::Correspondence);
}

#[test]
fn the_time_control_is_read_from_its_header() {
    let mut indexer = Indexer::new();
    indexer.begin_headers();
    assert_eq!(indexer.header(b"TimeControl", b"300+0"), Ok(()));
    assert_eq!(indexer.time_control(), TimeControl::Blitz);
    assert_eq!(indexer.header(b"TimeControl", b"-"), Ok(()));
    assert_eq!(indexer.time_control(), TimeControl::Correspondence);
    assert_eq!(indexer.white_elo(), 0);
    assert_eq!(indexer.black_elo(), 0);
}

#[test]
fn other_headers_change_nothing() {
    let mut indexer = Indexer::new();
    indexer.begin_headers();
    indexer.header(b"WhiteElo", b"2100").unwrap();
    indexer.header(b"TimeControl", b"60+0").unwrap();
    for (key, value) in [
        (&b"Event"[..], &b"Rated Bullet game"[..]),
        (b"White", b"1500"),
        (b"whiteelo", b"900"),
        (b"WhiteElo ", b"900"),
        (b"WhiteEl", b"900"),
        (b"WhiteEloX", b"900"),
        (b"timecontrol", b"600+0"),
        (b"TimeControls", b"garbage"),
        (b"", b""),
        (b"BlackRatingDiff", b"-11"),
    ] {
        assert_eq!(indexer.header(key, value), Ok(()));
        assert_eq!(indexer.white_elo(), 2100);
        assert_eq!(indexer.black_elo(), 0);
        assert_eq!(indexer.time_control(), TimeControl::Bullet);
    }
}

#[test]
fn a_malformed_time_control_is_the_one_error() {
    let mut indexer = Indexer::new();
    indexer.begin_headers();
    indexer.header(b"WhiteElo", b"1200").unwrap();
    indexer.header(b"TimeControl", b"600+5").unwrap();
    assert_eq!(indexer.header(b"TimeControl", b"abc"), Err(TimeControlError {}));
    assert_eq!(indexer.header(b"TimeControl", b"300"), Err(TimeControlError {}));
    assert_eq!(indexer.header(b"TimeControl", b"+5"), Err(TimeControlError {}));
    assert_eq!(indexer.header(b"TimeControl", b""), Err(TimeControlError {}));
    assert_eq!(indexer.header(b"TimeControl", b"?"), Err(TimeControlError {}));
    assert_eq!(indexer.white_elo(), 1200);
    assert_eq!(indexer.time_control(), TimeControl::Classical);
}

#[test]
fn an_unknown_rating_is_zero() {
    let mut indexer = Indexer::new();
    indexer.begin_headers();
    indexer.header(b"WhiteElo", b"1500").unwrap();
    indexer.header(b"WhiteElo", b"?").unwrap();
    assert_eq!(indexer.white_elo(), 0);
    assert_eq!(parse_rating(b"?"), 0);
}

#[test]
fn a_value_that_is_no_rating_is_zero() {
    assert_eq!(parse_rating(b""), 0);
    assert_eq!(parse_rating(b"abc"), 0);
    assert_eq!(parse_rating(b"15x0"), 0);
    assert_eq!(parse_rating(b" 1500"), 0);
    assert_eq!(parse_rating(b"1500 "), 0);
    assert_eq!(parse_rating(b"??"), 0);
    assert_eq!(parse_rating(b"1500.5"), 0);
    assert_eq!(parse_rating(b"+"), 0);
    assert_eq!(parse_rating(b"-"), 0);
    assert_eq!(parse_rating(b"++1"), 0);
    assert_eq!(parse_rating(b"+-1"), 0);
}

#[test]
fn ratings_are_decimal_numbers() {
    assert_eq!(parse_rating(b"0"), 0);
    assert_eq!(parse_rating(b"1"), 1);
    assert_eq!(parse_rating(b"1500"), 1500);
    assert_eq!(parse_rating(b"+1500"), 1500);
    assert_eq!(parse_rating(b"0001500"), 1500);
    assert_eq!(parse_rating(b"2851"), 2851);
    assert_eq!(parse_rating(b"32767"), 32767);
    assert_eq!(parse_rating(b"+32767"), 32767);
}

#[test]
fn a_rating_beyond_the_range_is_zero() {
    assert_eq!(parse_rating(b"32768"), 0);
    assert_eq!(parse_rating(b"40000"), 0);
    assert_eq!(parse_rating(b"99999999999999999999999"), 0);
}

#[test]
fn a_negative_rating_is_zero() {
    assert_eq!(parse_rating(b"-1"), 0);
    assert_eq!(parse_rating(b"-1500"), 0);
    assert_eq!(parse_rating(b"-0"), 0);
    assert_eq!(parse_rating(b"-32768"), 0);
    assert_eq!(parse_rating(b"-32769"), 0);
    let mut indexer = Indexer::new();
    indexer.begin_headers();
    indexer.header(b"BlackElo", b"-1500").unwrap();
    assert_eq!(indexer.black_elo(), 0);
}

#[test]
fn begin_headers_forgets_the_game_before() {
    let mut indexer = Indexer::new();
    indexer.begin_headers();
    indexer.header(b"WhiteElo", b"1500").unwrap();
    indexer.header(b"BlackElo", b"1600").unwrap();
    indexer.header(b"TimeControl", b"60+0").unwrap();
    let _ = indexer.end_headers_with(0);
    assert!(!indexer.skip());
    indexer.begin_headers();
    assert_eq!(indexer.white_elo(), 0);
    assert_eq!(indexer.black_elo(), 0);
    assert_eq!(indexer.time_control(), TimeControl::Correspondence);
    assert!(!indexer.skip());
}

#[test]
fn the_average_rating_is_rounded_down() {
    let mut indexer = Indexer::new();
    indexer.begin_headers();
    indexer.header(b"WhiteElo", b"1500").unwrap();
    indexer.header(b"BlackElo", b"1501").unwrap();
    assert_eq!(indexer.average_rating(), 1500);
    indexer.header(b"BlackElo", b"1502").unwrap();
    assert_eq!(indexer.average_rating(), 1501);
    indexer.header(b"WhiteElo", b"32767").unwrap();
    indexer.header(b"BlackElo", b"32767").unwrap();
    assert_eq!(indexer.average_rating(), 32767);
    indexer.header(b"BlackElo", b"?").unwrap();
    assert_eq!(indexer.average_rating(), 16383);
}

#[test]
fn the_probability_follows_class_and_average() {
    let mut indexer = Indexer::new();
    indexer.begin_headers();
    indexer.header(b"WhiteElo", b"2250").unwrap();
    indexer.header(b"BlackElo", b"2349").unwrap();
    indexer.header(b"TimeControl", b"60+0").unwrap();
    // Bullet at 2299.
    let p = indexer.probability();
    assert_eq!((p.numerator(), p.denominator()), (4, 5));
    indexer.header(b"BlackElo", b"2350").unwrap();
    let p = indexer.probability();
    assert_eq!((p.numerator(), p.denominator()), (1, 1));
}

#[test]
fn a_game_without_a_clock_is_kept_on_every_draw() {
    for draw in [0, 1, NINE_TENTHS, u64::MAX] {
        let mut indexer = Indexer::new();
        indexer.begin_headers();
        indexer.header(b"TimeControl", b"-").unwrap();
        assert_eq!(indexer.end_headers_with(draw), Skip(false));
        assert!(!indexer.skip());
    }
}

#[test]
fn the_drawn_decision_keeps_what_is_certain() {
    for _ in 0..200 {
        let mut indexer = Indexer::new();
        indexer.begin_headers();
        indexer.header(b"WhiteElo", b"2000").unwrap();
        indexer.header(b"BlackElo", b"2000").unwrap();
        indexer.header(b"TimeControl", b"600+0").unwrap();
        assert_eq!(indexer.end_headers(), Skip(false));
        assert!(!indexer.skip());
        assert_eq!(indexer.white_elo(), 2000);
        assert_eq!(indexer.black_elo(), 2000);
        assert_eq!(indexer.time_control(), TimeControl::Classical);
    }
}

#[test]
fn the_drawn_decision_is_the_answer() {
    for _ in 0..200 {
        let mut indexer = Indexer::new();
        indexer.begin_headers();
        indexer.header(b"TimeControl", b"15+0").unwrap();
        let skip = indexer.end_headers();
        assert_eq!(skip.0, indexer.skip());
    }
}

#[test]
fn a_high_draw_drops_an_ultra_bullet_game() {
    let mut indexer = Indexer::new();
    indexer.begin_headers();
    indexer.header(b"WhiteElo", b"1200").unwrap();
    indexer.header(b"BlackElo", b"1200").unwrap();
    indexer.header(b"TimeControl", b"15+0").unwrap();
    assert_eq!(indexer.end_headers_with(NINE_TENTHS), Skip(true));
    assert!(indexer.skip());
    assert_eq!(indexer.end_game(b"[WhiteElo \"1200\"]\n\n1. e4 *\n\n"), Ok(None));
}

#[test]
fn a_low_draw_keeps_an_ultra_bullet_game() {
    let mut indexer = Indexer::new();
    indexer.begin_headers();
    indexer.header(b"TimeControl", b"15+0").unwrap();
    assert_eq!(indexer.end_headers_with(0), Skip(false));
    assert_eq!(indexer.end_game(b"1. e4 *\n"), Ok(Some(b"1. e4 *\n\n".to_vec())));
}

#[test]
fn the_decision_leaves_the_headers_alone() {
    let mut indexer = Indexer::new();
    indexer.begin_headers();
    indexer.header(b"WhiteElo", b"1850").unwrap();
    indexer.header(b"BlackElo", b"1790").unwrap();
    indexer.header(b"TimeControl", b"180+2").unwrap();
    let _ = indexer.end_headers_with(u64::MAX);
    assert_eq!(indexer.white_elo(), 1850);
    assert_eq!(indexer.black_elo(), 1790);
    assert_eq!(indexer.time_control(), TimeControl::Blitz);
    assert!(indexer.skip());
}

#[test]
fn variations_are_always_skipped() {
    let mut indexer = Indexer::new();
    assert_eq!(indexer.begin_variation(), Skip(true));
    indexer.begin_headers();
    let _ = indexer.end_headers_with(0);
    assert_eq!(indexer.begin_variation(), Skip(true));
}

#[test]
fn nothing_is_written_before_a_decision() {
    let indexer = Indexer::new();
    assert_eq!(indexer.end_game(b"1. e4 *"), Ok(None));
    assert_eq!(indexer.end_game(&[0xff, 0xfe]), Ok(None));
}

#[test]
fn a_kept_game_that_is_no_text_is_an_error() {
    let mut indexer = Indexer::new();
    indexer.begin_headers();
    let _ = indexer.end_headers_with(0);
    assert_eq!(indexer.end_game(&[0x31, 0x2e, 0xff]), Err(EncodingError {}));
    assert_eq!(indexer.end_game(&[0xc3]), Err(EncodingError {}));
    assert_eq!(indexer.end_game(&[0xed, 0xa0, 0x80]), Err(EncodingError {}));
    assert_eq!(indexer.end_game(&[0xc0, 0x80]), Err(EncodingError {}));
}

#[test]
fn emit_appends_one_line_feed() {
    assert_eq!(emit(b""), Ok(vec![b'\n']));
    assert_eq!(emit(b"1. e4 e5 *"), Ok(b"1. e4 e5 *\n".to_vec()));
    assert_eq!(emit(b"1. e4 e5 *\n\n"), Ok(b"1. e4 e5 *\n\n\n".to_vec()));
    assert_eq!(emit(b"[A \"b\"]\r\n\r\n*\r\n"), Ok(b"[A \"b\"]\r\n\r\n*\r\n\n".to_vec()));
}

#[test]
fn emit_keeps_text_beyond_ascii() {
    let game = "[White \"Żółć, Jürgen\"]\n\n1. e4 { 好 } *\n".as_bytes();
    let mut expected = game.to_vec();
    expected.push(b'\n');
    assert_eq!(emit(game), Ok(expected));
}

#[test]
fn emit_refuses_what_is_no_text() {
    assert_eq!(emit(&[0xff]), Err(EncodingError {}));
    assert_eq!(emit(&[0x41, 0x80]), Err(EncodingError {}));
    assert_eq!(emit(&[0xe2, 0x82]), Err(EncodingError {}));
    assert_eq!(emit(&[0xf4, 0x90, 0x80, 0x80]), Err(EncodingError {}));
}

#[test]
fn two_games_by_hand() {
    let first: &[u8] = b"[Event \"Casual\"]\n[WhiteElo \"?\"]\n[BlackElo \"900\"]\n[TimeControl \"-\"]\n\n1. e4 e5 *\n\n";
    let second: &[u8] =
        b"[WhiteElo \"1200\"]\n[BlackElo \"1200\"]\n[TimeControl \"15+0\"]\n\n1. d4 d5 *\n";
    let mut indexer = Indexer::new();
    let mut output: Vec<u8> = Vec::new();

    indexer.begin_headers();
    indexer.header(b"Event", b"Casual").unwrap();
    indexer.header(b"WhiteElo", b"?").unwrap();
    indexer.header(b"BlackElo", b"900").unwrap();
    indexer.header(b"TimeControl", b"-").unwrap();
    assert_eq!(indexer.end_headers_with(NINE_TENTHS), Skip(false));
    if let Some(bytes) = indexer.end_game(first).unwrap() {
        output.extend_from_slice(&bytes);
    }

    indexer.begin_headers();
    indexer.header(b"WhiteElo", b"1200").unwrap();
    indexer.header(b"BlackElo", b"1200").unwrap();
    indexer.header(b"TimeControl", b"15+0").unwrap();
    assert_eq!(indexer.end_headers_with(NINE_TENTHS), Skip(true));
    if let Some(bytes) = indexer.end_game(second).unwrap() {
        output.extend_from_slice(&bytes);
    }

    let mut expected = first.to_vec();
    expected.push(b'\n');
    assert_eq!(output, expected);
}
