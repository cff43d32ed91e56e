use totality::gui::components::{Background, Img, ShouldHaltPropagation, SizingInfo, StackOrder};
use totality::gui::color::Color;
use totality::gui::layout::{Pos, Sz};
use totality::io::source::WindowSpecs;
use totality::model::geom::MeshAlloc;
use totality::shatter::sorted_tri::SortedTriEle;

#[test]
fn positions_and_sizes() {
    let p = Pos::new(3, 4);
    assert_eq!((*p.w(), *p.h()), (3, 4));
    let s = Sz::new(5, 6);
    assert_eq!((*s.x(), *s.y()), (5, 6));
    assert_eq!(Pos::default(), Pos::new(0, 0));
}

#[test]
fn component_data() {
    assert!(*ShouldHaltPropagation::from(true).should());
    assert!(!*ShouldHaltPropagation::default().should());
    let info = SizingInfo { min: Some(Sz::new(1, 1)), max: None, preferred: None };
    assert_eq!(info.min, Some(Sz::new(1, 1)));
    let bg = Background::Stacked(vec![Background::Color(Color::new(1, 2, 3, 4)), Background::Img(Img {})], StackOrder::HeadFirst);
    assert!(matches!(bg, Background::Stacked(_, StackOrder::HeadFirst)));
}

#[test]
fn mesh_ids_count_up() {
    let mut a = MeshAlloc::new();
    assert_eq!(a.alloc_id(), 0);
    assert_eq!(a.alloc_id(), 1);
    assert_eq!(a.alloc_id(), 2);
}

#[test]
fn window_specs_and_tri_positions() {
    let _w = WindowSpecs::new("Tracer");
    assert_eq!(SortedTriEle::from_u64(2), SortedTriEle::Third);
    assert_eq!(SortedTriEle::from_usize(0), SortedTriEle::First);
    assert_eq!(SortedTriEle::from_i32(1), SortedTriEle::Second);
    assert_eq!(u64::from(SortedTriEle::Second), 1);
}
