use rusto::vertex_layout::{VertexElementType, VertexLayoutDescription};

#[test]
fn element_sizes_and_components() {
    assert_eq!(VertexElementType::get_size(&VertexElementType::F32), 4);
    assert_eq!(VertexElementType::F32F32.get_size_of(), 8);
    assert_eq!(VertexElementType::F32F32F32.get_size_of(), 12);
    assert_eq!(VertexElementType::F32F32F32F32.get_size_of(), 16);
    assert_eq!(VertexElementType::F32.get_num_components(), 1);
    assert_eq!(VertexElementType::F32F32.get_num_components(), 2);
    assert_eq!(VertexElementType::F32F32F32.get_num_components(), 3);
    assert_eq!(VertexElementType::F32F32F32F32.get_num_components(), 4);
}

#[test]
fn offsets_are_cumulative_sums_of_sizes() {
    // element i's offset equals the sum of the sizes of elements 0..i
    let mut layout = VertexLayoutDescription::new();
    layout.add_element("position".to_string(), VertexElementType::F32F32F32);
    layout.add_element("normal".to_string(), VertexElementType::F32F32F32);
    layout.add_element("tex_coord".to_string(), VertexElementType::F32F32);
    layout.add_element("weight".to_string(), VertexElementType::F32);
    assert_eq!(layout.elements[0].offset, 0);
    assert_eq!(layout.elements[1].offset, 12);
    assert_eq!(layout.elements[2].offset, 24);
    assert_eq!(layout.elements[3].offset, 32);
    assert_eq!(layout.stride(), 36);
}

#[test]
fn element_order_changes_offsets_and_stride_tracks_all() {
    // adding elements in another order silently moves the offsets
    let mut a = VertexLayoutDescription::new();
    a.add_element("position".to_string(), VertexElementType::F32F32F32);
    a.add_element("tex_coord".to_string(), VertexElementType::F32F32);
    let mut b = VertexLayoutDescription::new();
    b.add_element("tex_coord".to_string(), VertexElementType::F32F32);
    b.add_element("position".to_string(), VertexElementType::F32F32F32);
    assert_eq!(a.elements[1].offset, 12);
    assert_eq!(b.elements[1].offset, 8);
    assert_eq!(a.stride(), b.stride());
    assert_eq!(a.stride(), 20);
}

#[test]
fn empty_layout_has_zero_stride() {
    let layout = VertexLayoutDescription::new();
    assert_eq!(layout.stride(), 0);
    assert_eq!(layout.elements.len(), 0);
}
