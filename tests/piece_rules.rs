use schackmotor::{
    AdjustPiece, AlgebraicNotation, Bishop, Board, King, Knight, Notation, Pawn, Piece,
    PieceClone, PieceTrait, Queen, Rook, _BLACK_PIECE, _WHITE_PIECE,
};

/// The usual back rank and pawn rank, mirrored for black.
const LAYOUT: &str = "RNBQKBNR\nPPPPPPPP\n";

#[test]
fn it_works() {
    assert_eq!(2 + 2, 4);
}

#[test]
fn board_loaded() {
    let mut board = Board::new();
    board.populate_board(LAYOUT);
}

#[test]
fn pawn_basic() {
    let mut board = Board::new();
    board.populate_board(LAYOUT);
    let x = Pawn {
        color: _WHITE_PIECE,
        has_moved: 0,
    };
    let q = Pawn {
        color: _BLACK_PIECE,
        has_moved: 0,
    };
    let xa = Pawn {
        color: _WHITE_PIECE,
        has_moved: 0,
    };
    let xb = Pawn {
        color: _WHITE_PIECE,
        has_moved: 0,
    };
    let xc = Pawn {
        color: _WHITE_PIECE,
        has_moved: 0,
    };

    assert_eq!(
        x.theory_valid_move(&board, false, (2, 1), (3, 1)).ok(),
        Some(true)
    ); /* single step */
    assert_eq!(
        q.theory_valid_move(&board, false, (7, 1), (6, 1)).ok(),
        Some(true)
    ); /* single step */
    assert_eq!(
        x.theory_valid_move(&board, false, (2, 1), (4, 1)).err(),
        Some(vec![AdjustPiece {
            piece: (3, 0),
            remove_piece: false,
            increase_movement: 2
        }])
    ); /* double step */
    assert_eq!(
        q.theory_valid_move(&board, false, (7, 1), (5, 1)).err(),
        Some(vec![AdjustPiece {
            piece: (4, 0),
            remove_piece: false,
            increase_movement: 2
        }])
    ); /* double step */

    board.table[(2)][(0)] = Some(xa.clone_box()); /* insert pawn into table. human-wise: (3,1) => (2,0) in table */
    assert_eq!(
        xa.theory_valid_move(&board, false, (2, 1), (4, 1)).ok(),
        Some(false)
    ); /* double step */

    /* capture-move when it should not be capturing */
    assert_eq!(
        x.theory_valid_move(&board, false, (2, 1), (3, 2)).ok(),
        Some(false)
    );
    assert_eq!(
        x.theory_valid_move(&board, false, (2, 2), (3, 1)).ok(),
        Some(false)
    );

    /* capture moves */
    board.table[(2)][(1)] = Some(q.clone_box());
    assert_eq!(
        xb.theory_valid_move(&board, true, (2, 1), (3, 2)).ok(),
        Some(true)
    );
    board.table[(2)][(0)] = Some(q.clone_box());
    assert_eq!(
        xc.theory_valid_move(&board, true, (2, 2), (3, 1)).ok(),
        Some(true)
    );
}

#[test]
fn en_passant_basic() {
    let mut board = Board::new();
    let xd = Pawn {
        color: _WHITE_PIECE,
        has_moved: 2,
    };
    let xe = Pawn {
        color: _BLACK_PIECE,
        has_moved: 0,
    };
    board.table[3][2] = Some(xd.clone_box());
    board.table[3][3] = Some(xe.clone_box());
    // black should capture the white
    assert_eq!(
        xe.theory_valid_move(&board, true, (4, 4), (3, 3)).err(),
        Some(vec![AdjustPiece {
            increase_movement: 0,
            remove_piece: true,
            piece: (3, 2)
        }])
    );

    // white should capture the black
    let xf = Pawn {
        color: _WHITE_PIECE,
        has_moved: 0,
    };
    let xg = Pawn {
        color: _BLACK_PIECE,
        has_moved: 2,
    };
    board.table[4][4] = Some(xf.clone_box());
    board.table[4][5] = Some(xg.clone_box());
    assert_eq!(
        xf.theory_valid_move(&board, true, (5, 5), (6, 6)).err(),
        Some(vec![AdjustPiece {
            increase_movement: 0,
            remove_piece: true,
            piece: (4, 5)
        }])
    );
}

#[test]
fn rook_basic() {
    let mut board = Board::new();
    board.populate_board(LAYOUT);

    let r = Rook {
        color: _WHITE_PIECE,
        has_moved: 0,
    };
    let ra = Rook {
        color: _BLACK_PIECE,
        has_moved: 0,
    };

    /* basic test with default populated board */
    assert_eq!(
        r.theory_valid_move(&board, false, (1, 1), (3, 1)).ok(),
        Some(false)
    );
    board.table[1][0] = None;
    assert_eq!(
        r.theory_valid_move(&board, false, (1, 1), (3, 1)).err(),
        Some(vec![AdjustPiece {
            increase_movement: 1,
            remove_piece: false,
            piece: (2, 0)
        }])
    );

    /* Sideways */
    assert_eq!(
        r.theory_valid_move(&board, false, (3, 1), (3, 3)).err(),
        Some(vec![AdjustPiece {
            increase_movement: 1,
            remove_piece: false,
            piece: (2, 2)
        }])
    );
    assert_eq!(
        r.theory_valid_move(&board, false, (3, 3), (3, 2)).err(),
        Some(vec![AdjustPiece {
            increase_movement: 1,
            remove_piece: false,
            piece: (2, 1)
        }])
    );

    /* black */
    assert_eq!(
        ra.theory_valid_move(&board, false, (8, 1), (6, 1)).ok(),
        Some(false)
    );
    board.table[6][0] = None;
    assert_eq!(
        ra.theory_valid_move(&board, false, (8, 1), (6, 1)).err(),
        Some(vec![AdjustPiece {
            increase_movement: 1,
            remove_piece: false,
            piece: (5, 0)
        }])
    );

    board.table[5][0] = Some(ra.clone_box()); // place black rook to test capture

    /* capture */
    assert_eq!(
        r.theory_valid_move(&board, true, (1, 1), (7, 1)).ok(),
        Some(false)
    );
    assert_eq!(
        r.theory_valid_move(&board, true, (1, 1), (6, 1)).err(),
        Some(vec![AdjustPiece {
            increase_movement: 1,
            remove_piece: false,
            piece: (5, 0)
        }])
    ); // try capturing black rook

    /* just illegal behavior */
    assert_eq!(
        r.theory_valid_move(&board, true, (1, 1), (7, 3)).ok(),
        Some(false)
    );
}

#[test]
fn knight_basic() {
    let mut board = Board::new();
    board.populate_board(LAYOUT);

    let k = Knight {
        color: _WHITE_PIECE,
        has_moved: 0,
    };
    let ka = Knight {
        color: _BLACK_PIECE,
        has_moved: 0,
    };

    /* basic movement */
    assert_eq!(
        k.theory_valid_move(&board, false, (1, 2), (3, 1)).ok(),
        Some(true)
    );
    assert_eq!(
        k.theory_valid_move(&board, false, (1, 2), (3, 3)).ok(),
        Some(true)
    );
    assert_eq!(
        k.theory_valid_move(&board, false, (1, 7), (3, 8)).ok(),
        Some(true)
    );
    assert_eq!(
        k.theory_valid_move(&board, false, (1, 7), (3, 6)).ok(),
        Some(true)
    );

    assert_eq!(
        ka.theory_valid_move(&board, false, (8, 2), (6, 1)).ok(),
        Some(true)
    );
    assert_eq!(
        ka.theory_valid_move(&board, false, (8, 2), (6, 3)).ok(),
        Some(true)
    );
    assert_eq!(
        ka.theory_valid_move(&board, false, (8, 7), (6, 8)).ok(),
        Some(true)
    );
    assert_eq!(
        ka.theory_valid_move(&board, false, (8, 7), (6, 6)).ok(),
        Some(true)
    );

    /* small capturing test */
    assert_eq!(
        k.theory_valid_move(&board, true, (5, 4), (7, 3)).ok(),
        Some(true)
    );
    assert_eq!(
        k.theory_valid_move(&board, true, (5, 4), (7, 5)).ok(),
        Some(true)
    );

    /* fix board for free roaming */
    board.table[6][2] = None;
    board.table[6][4] = None;

    /* free roaming knight */
    assert_eq!(
        k.theory_valid_move(&board, false, (5, 4), (7, 3)).ok(),
        Some(true)
    );
    assert_eq!(
        k.theory_valid_move(&board, false, (5, 4), (7, 5)).ok(),
        Some(true)
    );
    assert_eq!(
        k.theory_valid_move(&board, false, (5, 4), (6, 2)).ok(),
        Some(true)
    );
    assert_eq!(
        k.theory_valid_move(&board, false, (5, 4), (6, 6)).ok(),
        Some(true)
    );
    assert_eq!(
        k.theory_valid_move(&board, false, (5, 4), (4, 2)).ok(),
        Some(true)
    );
    assert_eq!(
        k.theory_valid_move(&board, false, (5, 4), (3, 3)).ok(),
        Some(true)
    );
    assert_eq!(
        k.theory_valid_move(&board, false, (5, 4), (3, 5)).ok(),
        Some(true)
    );
    assert_eq!(
        k.theory_valid_move(&board, false, (5, 4), (4, 6)).ok(),
        Some(true)
    );
}

#[test]
fn bishop_basic() {
    let board = Board::new();
    //board.populate_board(LAYOUT);

    let b = Bishop {
        color: _WHITE_PIECE,
        has_moved: 0,
    };

    assert_eq!(
        b.theory_valid_move(&board, false, (1, 3), (3, 5)).ok(),
        Some(true)
    );
    assert_eq!(
        b.theory_valid_move(&board, false, (1, 6), (2, 7)).ok(),
        Some(true)
    );
    assert_eq!(
        b.theory_valid_move(&board, false, (1, 6), (3, 8)).ok(),
        Some(true)
    );

    assert_eq!(
        b.theory_valid_move(&board, false, (8, 3), (7, 2)).ok(),
        Some(true)
    );
    assert_eq!(
        b.theory_valid_move(&board, false, (8, 3), (7, 4)).ok(),
        Some(true)
    );
    assert_eq!(
        b.theory_valid_move(&board, false, (8, 3), (6, 5)).ok(),
        Some(true)
    );
    assert_eq!(
        b.theory_valid_move(&board, false, (8, 6), (7, 7)).ok(),
        Some(true)
    );
    assert_eq!(
        b.theory_valid_move(&board, false, (8, 6), (7, 5)).ok(),
        Some(true)
    );
    assert_eq!(
        b.theory_valid_move(&board, false, (8, 6), (6, 4)).ok(),
        Some(true)
    );
}

#[test]
fn queen_basic() {
    let board = Board::new();
    let q = Queen {
        color: _WHITE_PIECE,
        has_moved: 0,
    };
    let qa = Queen {
        color: _BLACK_PIECE,
        has_moved: 0,
    };

    assert_eq!(
        q.theory_valid_move(&board, false, (1, 4), (4, 7)).ok(),
        Some(true)
    );
    assert_eq!(
        q.theory_valid_move(&board, false, (1, 4), (5, 4)).ok(),
        Some(true)
    );
    assert_eq!(
        q.theory_valid_move(&board, false, (1, 4), (3, 3)).ok(),
        Some(false)
    ); // try to be a knight
    assert_eq!(
        q.theory_valid_move(&board, false, (1, 4), (3, 8)).ok(),
        Some(false)
    ); // just invalid

    assert_eq!(
        qa.theory_valid_move(&board, false, (8, 4), (5, 1)).ok(),
        Some(true)
    );
    assert_eq!(
        qa.theory_valid_move(&board, false, (8, 4), (5, 4)).ok(),
        Some(true)
    );
    assert_eq!(
        qa.theory_valid_move(&board, false, (8, 4), (6, 5)).ok(),
        Some(false)
    ); // try to be a knight
}

#[test]
fn king_basic() {
    let board = Board::new();
    let k = King {
        color: _WHITE_PIECE,
        has_moved: 0,
    };
    assert_eq!(
        k.theory_valid_move(&board, false, (1, 5), (2, 6)).err(),
        Some(vec![AdjustPiece {
            increase_movement: 1,
            remove_piece: false,
            piece: (1, 5)
        }])
    );
    assert_eq!(
        k.theory_valid_move(&board, false, (1, 5), (2, 4)).err(),
        Some(vec![AdjustPiece {
            increase_movement: 1,
            remove_piece: false,
            piece: (1, 3)
        }])
    );
    assert_eq!(
        k.theory_valid_move(&board, false, (1, 5), (2, 5)).err(),
        Some(vec![AdjustPiece {
            increase_movement: 1,
            remove_piece: false,
            piece: (1, 4)
        }])
    );
    assert_eq!(
        k.theory_valid_move(&board, false, (2, 5), (1, 5)).err(),
        Some(vec![AdjustPiece {
            increase_movement: 1,
            remove_piece: false,
            piece: (0, 4)
        }])
    );
    assert_eq!(
        k.theory_valid_move(&board, false, (2, 5), (1, 4)).err(),
        Some(vec![AdjustPiece {
            increase_movement: 1,
            remove_piece: false,
            piece: (0, 3)
        }])
    );

    assert_eq!(
        k.theory_valid_move(&board, false, (2, 5), (1, 3)).ok(),
        Some(false)
    );
}

#[test]
fn promotion_test() {
    let mut board = Board::new();
    board.table[6][4] = Some(Piece::Pawn(Pawn {
        has_moved: 0,
        color: _WHITE_PIECE,
    }));
    let mut algnot: AlgebraicNotation = Notation::new(board, _WHITE_PIECE);
    assert_eq!(algnot.do_move("e8Q"), true);
    assert_eq!(
        algnot.board.table[7][4].as_ref().unwrap().get_identity(),
        "Q".to_string()
    );
    assert_eq!(algnot.board.table[6][4].as_ref().is_some(), false);
}

#[test]
fn checkmate_threat_test() {
    let mut board = Board::new();
    board.table[2][4] = Some(Piece::King(King {
        has_moved: 0,
        color: _WHITE_PIECE,
    }));
    board.table[2][3] = Some(Piece::Rook(Rook {
        has_moved: 0,
        color: _BLACK_PIECE,
    }));
    let mut algnot: AlgebraicNotation = Notation::new(board, _WHITE_PIECE);
    assert_eq!(algnot.do_move("Ke3f3"), false);
    assert_eq!(algnot.do_move("Ke3xd3"), true);
}

#[test]
fn castling_test() {
    let mut board = Board::new();
    let mut board2 = Board::new();
    board.table[0][4] = Some(Piece::King(King {
        has_moved: 0,
        color: _WHITE_PIECE,
    }));
    board.table[0][0] = Some(Piece::Rook(Rook {
        has_moved: 0,
        color: _WHITE_PIECE,
    }));
    board2.table[0][4] = board.table[0][4].clone();
    board2.table[0][7] = board.table[0][0].clone();
    let mut algnot_queen: AlgebraicNotation = Notation::new(board, _WHITE_PIECE);
    let mut algnot_king: AlgebraicNotation = Notation::new(board2, _WHITE_PIECE);

    /* Queenside castling */
    assert_eq!(algnot_queen.do_move("0-0-0"), true);
    assert_eq!(
        algnot_queen.board.table[0][2]
            .as_ref()
            .unwrap()
            .get_identity(),
        "K".to_string()
    );
    assert_eq!(
        algnot_queen.board.table[0][3]
            .as_ref()
            .unwrap()
            .get_identity(),
        "R".to_string()
    );

    /* Kingside castling */
    assert_eq!(algnot_king.do_move("0-0"), true);
    assert_eq!(
        algnot_king.board.table[0][6]
            .as_ref()
            .unwrap()
            .get_identity(),
        "K".to_string()
    );
    assert_eq!(
        algnot_king.board.table[0][5]
            .as_ref()
            .unwrap()
            .get_identity(),
        "R".to_string()
    );
}
