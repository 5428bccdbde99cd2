use fourtris::coord::Coord;
use fourtris::pieces::{piece_types, Orientation, Piece, PieceType};

#[test]
fn coord_add_and_sub_are_component_wise() {
    let a = Coord { x: 3, y: -4 };
    let b = Coord { x: -7, y: 2 };
    assert_eq!(a.add(b), Coord { x: -4, y: -2 });
    assert_eq!(a.sub(b), Coord { x: 10, y: -6 });
    assert_eq!(a.add(b).sub(b), a);
}

#[test]
fn moves_translate_every_cell() {
    let piece = piece_types()[6];
    let left = piece.move_left();
    let right = piece.move_right();
    let down = piece.apply_gravity(3);
    for k in 0..4 {
        assert_eq!(left.position[k], Coord { x: piece.position[k].x - 1, y: piece.position[k].y });
        assert_eq!(right.position[k], Coord { x: piece.position[k].x + 1, y: piece.position[k].y });
        assert_eq!(down.position[k], Coord { x: piece.position[k].x, y: piece.position[k].y - 3 });
    }
    assert_eq!(left.piece_type, PieceType::TType);
    assert_eq!(down.piece_type, PieceType::TType);
}

#[test]
fn every_spawn_pose_comes_back_after_four_turns() {
    for piece in piece_types() {
        assert_eq!(piece.cw_rot().cw_rot().cw_rot().cw_rot(), piece);
        assert_eq!(piece.ccw_rot().ccw_rot().ccw_rot().ccw_rot(), piece);
    }
}

#[test]
fn a_turn_each_way_gives_back_the_piece() {
    for piece in piece_types() {
        assert_eq!(piece.cw_rot().ccw_rot(), piece);
        assert_eq!(piece.ccw_rot().cw_rot(), piece);
    }
}

#[test]
fn i_orientation_cycles_both_ways() {
    let piece = piece_types()[0];
    let mut cw = piece;
    let mut ccw = piece;
    let cw_order = [
        Orientation::VerticalLeft,
        Orientation::HorizontalUp,
        Orientation::VerticalRight,
        Orientation::HorizontalDown,
    ];
    let ccw_order = [
        Orientation::VerticalRight,
        Orientation::HorizontalUp,
        Orientation::VerticalLeft,
        Orientation::HorizontalDown,
    ];
    for k in 0..4 {
        cw = cw.cw_rot();
        ccw = ccw.ccw_rot();
        assert_eq!(cw.piece_type, PieceType::IType(cw_order[k]));
        assert_eq!(ccw.piece_type, PieceType::IType(ccw_order[k]));
    }
}

#[test]
fn o_piece_never_changes_under_rotation() {
    let piece = Piece { piece_type: PieceType::OType, position: piece_types()[1].position };
    assert_eq!(piece.cw_rot(), piece);
    assert_eq!(piece.ccw_rot(), piece);
}

#[test]
fn i_piece_turn_applies_the_orientation_correction() {
    // from VerticalLeft the clockwise correction is (-1, 2)
    let piece = Piece {
        piece_type: PieceType::IType(Orientation::VerticalLeft),
        position: [Coord { x: 4, y: 5 }, Coord { x: 4, y: 6 }, Coord { x: 4, y: 7 }, Coord { x: 4, y: 8 }],
    };
    let turned = piece.cw_rot();
    assert_eq!(turned.piece_type, PieceType::IType(Orientation::HorizontalUp));
    assert_eq!(
        turned.position,
        [Coord { x: 3, y: 7 }, Coord { x: 4, y: 7 }, Coord { x: 5, y: 7 }, Coord { x: 6, y: 7 }]
    );
}
