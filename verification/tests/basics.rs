use stdb_unreal::shared::types::Color;

#[test]
fn it_works() {
    assert_eq!(2 + 2, 4);
}

#[test]
fn color_constants() {
    let w = Color::white();
    assert_eq!((w.r, w.g, w.b, w.a), (255, 255, 255, 255));
    let b = Color::black();
    assert_eq!((b.r, b.g, b.b, b.a), (0, 0, 0, 255));
}
