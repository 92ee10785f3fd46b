use xiangqi_core::codec::{encode, Move};
use xiangqi_core::game::{
    classify, esc_event_system, selection, Data, DrawReason, GameError, MoveOutcome, PieceColor,
    Selection, Status, Verdict, START_POS,
};
use xiangqi_core::sort::{MoveSort, Phase};

const MATED: &str = "R3k4/R8/9/9/9/9/9/9/9/3K5 b";
const STALEMATED: &str = "4k4/R8/9/9/9/9/9/9/5R3/3K5 b";
const ONE_CAPTURE: &str = "4k4/9/9/9/9/9/9/9/3p5/3K5 w";
const MATE_IN_ONE: &str = "4k4/R8/9/9/9/9/9/9/1R7/3K5 w";

#[test]
fn test_parse_route() {
    // [97, 48, 105, 57]
    let test_str = String::from("a0i9");
    let ((row, col), (dst_row, dst_col)) = Data::new().parse_route(test_str);
    assert_eq!((row, col), (0, 0));
    assert_eq!((dst_row, dst_col), (9, 8));
}

#[test]
fn test_match() {
    let n = 9;
    match n {
        1 => {
            println!("1")
        }
        9 => {
            println!("9")
        }
        _ => {
            println!("n")
        }
    }
}

#[test]
fn opening_position_has_44_legal_moves() {
    let d = Data::from_notation("rnbakabnr/9/1c5c1/p1p1p1p1p/9/9/P1P1P1P1P/1C5C1/9/RNBAKABNR w - - 0 1")
        .unwrap();
    assert_eq!(d.legal_moves().len(), 44);
    assert_eq!(d.to_notation(), START_POS);
    assert_eq!(Data::new().legal_moves().len(), 44);
}

#[test]
fn from_notation_rejects_garbage() {
    assert!(matches!(Data::from_notation("hello world"), Err(GameError::InvalidNotation)));
    assert!(matches!(Data::from_notation(""), Err(GameError::InvalidNotation)));
    // three red rooks exceed a side's piece set
    assert!(matches!(
        Data::from_notation("4k4/9/9/9/9/9/9/RRR6/9/3K5 w"),
        Err(GameError::InvalidNotation)
    ));
}

#[test]
fn legal_moves_never_leave_own_king_in_check() {
    let d = Data::new();
    for m in d.legal_moves() {
        let mut g = Data::new();
        let mover = g.current_color;
        assert!(g.try_user_move(&xiangqi_core::codec::decode(&m)).is_ok());
        let p = chessai::Position::from_fen(&g.to_notation()).unwrap();
        let color = match mover {
            PieceColor::White => chessai::Color::Red,
            PieceColor::Black => chessai::Color::Black,
        };
        assert!(!p.is_in_check(color));
    }
}

#[test]
fn checkmated_position_is_lost() {
    let d = Data::from_notation(MATED).unwrap();
    assert!(d.in_check());
    assert_eq!(d.legal_moves().len(), 0);
    assert_eq!(d.verdict(), Verdict::Checkmate(PieceColor::White));
}

#[test]
fn stalemated_position_is_lost_too() {
    let d = Data::from_notation(STALEMATED).unwrap();
    assert!(!d.in_check());
    assert_eq!(d.legal_moves().len(), 0);
    assert_eq!(d.verdict(), Verdict::Checkmate(PieceColor::White));
}

#[test]
fn classify_values() {
    assert_eq!(classify(PieceColor::Black, 0, 0, 0, 120), Verdict::Checkmate(PieceColor::White));
    assert_eq!(classify(PieceColor::White, 0, 5, 500, 120), Verdict::Checkmate(PieceColor::Black));
    assert_eq!(classify(PieceColor::White, 3, 2, 0, 120), Verdict::Draw(DrawReason::Repetition));
    assert_eq!(classify(PieceColor::White, 3, 1, 120, 120), Verdict::Draw(DrawReason::MoveLimit));
    assert_eq!(classify(PieceColor::White, 3, 1, 119, 120), Verdict::Ongoing);
}

#[test]
fn search_on_mated_position_fails() {
    let mut d = Data::from_notation(MATED).unwrap();
    assert_eq!(d.request_ai_move(2), Err(GameError::NoLegalMove));
    assert_eq!(d.to_notation(), "R3k4/R8/9/9/9/9/9/9/9/3K5 b");
}

#[test]
fn single_capture_is_chosen() {
    let mut d = Data::from_notation(ONE_CAPTURE).unwrap();
    let legal = d.legal_moves();
    assert_eq!(legal, vec![encode("d0d1").unwrap()]);
    let (m, outcome) = d.request_ai_move(1).unwrap();
    assert_eq!(m, encode("d0d1").unwrap());
    assert_eq!(outcome, MoveOutcome::Captured);
    assert_eq!(d.quiet_plies, 0);
}

#[test]
fn mate_in_one_is_found() {
    let mut d = Data::from_notation(MATE_IN_ONE).unwrap();
    let (m, outcome) = d.request_ai_move(2).unwrap();
    assert_eq!(m, encode("b1b9").unwrap());
    assert_eq!(outcome, MoveOutcome::Checkmate(PieceColor::White));
}

#[test]
fn search_is_deterministic() {
    let mut a = Data::new();
    let mut b = Data::new();
    let ra = a.request_ai_move(3).unwrap();
    let rb = b.request_ai_move(3).unwrap();
    assert_eq!(ra, rb);
    assert_eq!(a.to_notation(), b.to_notation());
}

#[test]
fn user_move_errors() {
    let mut d = Data::new();
    assert_eq!(d.try_user_move("z9z9"), Err(GameError::InvalidNotation));
    assert_eq!(d.try_user_move("a0a5"), Err(GameError::IllegalMove));
    assert_eq!(d.to_notation(), START_POS);
    assert_eq!(d.try_user_move("h2e2"), Ok(MoveOutcome::Moved));
    assert_eq!(d.current_color, PieceColor::Black);
    assert_eq!(d.round, 1);
    assert_eq!(d.history.len(), 1);
}

#[test]
fn capture_and_check_are_reported() {
    let mut d = Data::new();
    assert_eq!(d.try_user_move("h2e2"), Ok(MoveOutcome::Moved));
    assert_eq!(d.try_user_move("h9g7"), Ok(MoveOutcome::Moved));
    assert_eq!(d.try_user_move("e2e6"), Ok(MoveOutcome::Captured));
    assert_eq!(d.quiet_plies, 0);
    let mut m = Data::from_notation(MATE_IN_ONE).unwrap();
    assert_eq!(m.try_user_move("a8a9"), Ok(MoveOutcome::Check));
    assert_eq!(m.quiet_plies, 1);
}

#[test]
fn threefold_repetition_draws() {
    let mut d = Data::new();
    let cycle = ["b0c2", "b9c7", "c2b0", "c7b9"];
    for _ in 0..2 {
        for (i, m) in cycle.iter().enumerate() {
            let r = d.try_user_move(m).unwrap();
            if d.history.len() == 8 {
                assert_eq!(r, MoveOutcome::Draw(DrawReason::Repetition));
            } else {
                assert_eq!(r, MoveOutcome::Moved, "move {}", i);
            }
        }
    }
}

#[test]
fn go_plays_only_legal_moves() {
    let mut d = Data::new();
    assert!(!d.go(String::from("a0a5")));
    assert!(d.go(String::from("a0a1")));
    assert_eq!(d.current_color, PieceColor::Black);
}

#[test]
fn set_ai_game_resets_board_and_names() {
    let mut d = Data::new();
    assert!(d.go(String::from("a0a1")));
    d.set_ai_game(PieceColor::Black);
    assert_eq!(d.to_notation(), START_POS);
    assert_eq!(d.white_player.name, "AI");
    assert_eq!(d.black_player.name, "玩家");
    assert_eq!(d.history.len(), 0);
    // the round and the side shown are left as they were
    assert_eq!(d.round, 1);
    assert_eq!(d.current_color, PieceColor::Black);
    d.set_ai_game(PieceColor::White);
    assert_eq!(d.white_player.name, "玩家");
    assert_eq!(d.black_player.name, "AI");
    assert_eq!(d.white_player.id, "0");
    assert_eq!(d.black_player.id, "1");
}

#[test]
fn parse_route_on_malformed_text_stays_on_board() {
    let ((r, c), (dr, dc)) = Data::new().parse_route(String::from("z"));
    assert!(r < 10 && c < 9 && dr < 10 && dc < 9);
}

#[test]
fn board_with_leading_space_is_refused() {
    assert!(!xiangqi_core::material::piece_set_ok(" RRRRRRRRR/9/9/9/9/9/9/9/9/RRRRRRRRR w"));
    assert!(!xiangqi_core::material::piece_set_ok(""));
    assert!(xiangqi_core::material::piece_set_ok(START_POS));
    assert!(matches!(
        Data::from_notation(" RRRRRRRRR/9/9/9/9/9/9/9/9/RRRRRRRRR w"),
        Err(GameError::InvalidNotation)
    ));
}

#[test]
fn sorter_keeps_killer_slot_order() {
    let d = Data::new();
    let k1 = encode("b0c2").unwrap();
    let k2 = encode("h2e2").unwrap();
    let mut s = MoveSort::new(&d, None, vec![k2, k1, k2], vec![]);
    assert_eq!(s.next(), Some(k2));
    assert_eq!(s.phase, Phase::KILLER);
    assert_eq!(s.next(), Some(k1));
    // with no history the two cannon captures lead, then the quiet moves,
    // each group in generation order
    let legal = d.legal_moves();
    let others: Vec<Move> = legal.iter().copied().filter(|m| *m != k1 && *m != k2).collect();
    let mut rest: Vec<Move> = others.iter().copied().filter(|m| m.dst_row == 9).collect();
    assert_eq!(rest.len(), 2);
    rest.extend(others.iter().copied().filter(|m| m.dst_row != 9));
    let mut got = Vec::new();
    while let Some(m) = s.next() {
        got.push(m);
    }
    assert_eq!(got, rest);
}

#[test]
fn escape_toggles_pause() {
    let mut d = Data::new();
    assert_eq!(esc_event_system(Status::PENDING, &mut d), None);
    assert_eq!(esc_event_system(Status::RUNNING, &mut d), Some(Status::PENDING));
    assert_eq!(d.previous_state, Some(Status::RUNNING));
    assert_eq!(esc_event_system(Status::PENDING, &mut d), Some(Status::RUNNING));
    assert_eq!(esc_event_system(Status::EXIT, &mut d), None);
}

#[test]
fn clicks_select_then_move() {
    let mut d = Data::new();
    assert_eq!(selection(&mut d, 4, 4), Selection::Ignored);
    assert_eq!(selection(&mut d, 2, 7), Selection::Selected);
    assert_eq!(d.current_select, Some((2, 7)));
    assert_eq!(selection(&mut d, 2, 4), Selection::Played(MoveOutcome::Moved));
    assert_eq!(d.current_select, None);
    assert_eq!(selection(&mut d, 9, 0), Selection::Selected);
    assert_eq!(selection(&mut d, 5, 5), Selection::Rejected);
    assert_eq!(d.current_select, None);
}

#[test]
fn sorter_puts_hash_and_killers_first() {
    let d = Data::new();
    let hash = encode("h2e2").unwrap();
    let killer = encode("b0c2").unwrap();
    let stale = encode("e5e6").unwrap();
    let mut history = vec![0u32; 8100];
    let heavy = Move { src_row: 0, src_col: 8, dst_row: 1, dst_col: 8 };
    history[xiangqi_core::sort::history_index(&heavy)] = 50;
    let mut s = MoveSort::new(&d, Some(hash), vec![stale, killer, hash], history);
    assert_eq!(s.phase, Phase::HASH);
    assert!(!s.signle);
    assert_eq!(s.next(), Some(hash));
    assert_eq!(s.phase, Phase::HASH);
    assert_eq!(s.next(), Some(killer));
    assert_eq!(s.phase, Phase::KILLER);
    assert_eq!(s.next(), Some(heavy));
    assert_eq!(s.phase, Phase::REST);
    let mut n = 3;
    while let Some(m) = s.next() {
        assert!(m != hash && m != killer && m != heavy);
        n += 1;
    }
    assert_eq!(n, 44);
}

#[test]
fn sorter_in_check_keeps_single_evasion() {
    let d = Data::from_notation(ONE_CAPTURE).unwrap();
    let mut s = MoveSort::new(&d, None, vec![], vec![]);
    assert_eq!(s.phase, Phase::REST);
    assert!(s.signle);
    assert_eq!(s.next(), Some(encode("d0d1").unwrap()));
    assert_eq!(s.next(), None);
}
