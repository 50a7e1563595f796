use audium::nav::{list_move, KeyCode};

#[test]
fn list_move_clamps_at_both_ends() {
    assert_eq!(list_move(KeyCode::Down, 4, 5), Some(4));
    assert_eq!(list_move(KeyCode::Up, 0, 5), Some(0));
    assert_eq!(list_move(KeyCode::Char('x'), 0, 5), None);
}
