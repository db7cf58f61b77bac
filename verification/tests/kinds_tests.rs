use tetris::gfx_kinds::BufferTarget;
use tetris::gfx_kinds::Primitive;
use tetris::gfx_kinds::ShaderKind;
use tetris::rng::kind_from_draw;
use tetris::shape::Tetromino;

#[test]
fn drawn_bytes_map_to_kinds_in_the_fixed_order() {
    assert_eq!(kind_from_draw(0), Tetromino::I);
    assert_eq!(kind_from_draw(1), Tetromino::J);
    assert_eq!(kind_from_draw(2), Tetromino::L);
    assert_eq!(kind_from_draw(3), Tetromino::O);
    assert_eq!(kind_from_draw(4), Tetromino::S);
    assert_eq!(kind_from_draw(5), Tetromino::T);
    assert_eq!(kind_from_draw(6), Tetromino::Z);
}

#[test]
fn drawn_bytes_wrap_modulo_seven() {
    assert_eq!(kind_from_draw(7), Tetromino::I);
    assert_eq!(kind_from_draw(8), Tetromino::J);
    assert_eq!(kind_from_draw(255), Tetromino::O);
}

#[test]
fn rendering_kind_enums_compare_and_copy() {
    let s = ShaderKind::Vertex;
    assert_eq!(s, s.clone());
    assert_ne!(ShaderKind::Vertex, ShaderKind::Fragment);
    assert_ne!(BufferTarget::Vertex, BufferTarget::Index);
    assert_ne!(Primitive::Line, Primitive::Triangle);
    assert_eq!(format!("{:?}", Primitive::Triangle), "Triangle");
}
