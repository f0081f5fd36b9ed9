use domers::volume::{
    concentric_layout_from_point, concentric_layout_from_starting_points, push_unique_strut,
    volume_edge_dictionary, volume_layouts, VolumeStrut, VolumeStrutLayout,
    VolumeStrutLayoutSegment, VOLUME_LINES,
};

fn s(index: usize, reversed: bool) -> VolumeStrut {
    VolumeStrut { index, reversed }
}

fn struts(layout: &VolumeStrutLayout, k: usize) -> Vec<(usize, bool)> {
    layout.segments[k]
        .struts
        .iter()
        .map(|strut| (strut.index, strut.reversed))
        .collect()
}

#[test]
fn edge_dictionary_lists_both_directions() {
    let d = volume_edge_dictionary();
    assert_eq!(d.len(), 71);
    let at0: Vec<(usize, usize, bool)> = d[0]
        .iter()
        .map(|e| (e.connected_point, e.strut.index, e.strut.reversed))
        .collect();
    assert_eq!(at0[0], (1, 0, false));
    assert_eq!(at0[1], (19, 19, true));
    let total: usize = d.iter().map(|edges| edges.len()).sum();
    assert_eq!(total, 2 * VOLUME_LINES.len());
}

#[test]
fn concentric_layout_from_top_joint() {
    let layout = concentric_layout_from_point(70, 2);
    assert_eq!(layout.segments.len(), 2);
    assert_eq!(
        struts(&layout, 0),
        vec![(185, true), (186, true), (187, true), (188, true), (189, true)]
    );
    assert_eq!(
        struts(&layout, 1),
        vec![(65, false), (66, false), (67, false), (68, false), (69, false)]
    );
    assert_eq!(layout.segment_index_of_strut(187), Some(0));
    assert_eq!(layout.segment_index_of_strut(66), Some(1));
    assert_eq!(layout.segment_index_of_strut(0), None);
    assert_eq!(layout.segment_index_of_strut(500), None);
}

#[test]
fn concentric_layout_from_rim_joint() {
    let layout = concentric_layout_from_point(0, 3);
    assert_eq!(
        struts(&layout, 0),
        vec![(0, false), (19, true), (70, true), (71, false)]
    );
    assert_eq!(struts(&layout, 1), vec![(72, true), (20, true), (109, false)]);
    assert_eq!(
        struts(&layout, 2),
        vec![
            (1, false),
            (73, false),
            (18, false),
            (108, true),
            (39, false),
            (110, false),
            (144, false),
            (21, true),
            (111, false),
            (112, false)
        ]
    );
}

#[test]
fn zero_layers_give_empty_layout() {
    let layout = concentric_layout_from_starting_points(&[10], 0);
    assert!(layout.segments.is_empty());
    assert_eq!(layout.segment_index_of_strut(9), None);
    let one = concentric_layout_from_starting_points(&[10], 1);
    assert_eq!(
        struts(&one, 0),
        vec![(9, true), (10, true), (90, false), (91, true)]
    );
}

#[test]
fn volume_layouts_centered() {
    let layouts = volume_layouts(0);
    let lens: Vec<usize> = layouts.part.segments.iter().map(|seg| seg.struts.len()).collect();
    assert_eq!(lens, vec![30, 30, 70, 40]);
    let ring_lens: Vec<usize> = layouts
        .section
        .segments
        .iter()
        .map(|seg| seg.struts.len())
        .collect();
    assert_eq!(ring_lens, vec![5, 5, 5, 5, 5, 5, 6, 6, 6, 6, 6, 10]);
    assert_eq!(
        struts(&layouts.section, 0),
        vec![(72, false), (1, false), (75, true), (114, true), (112, true)]
    );
    assert_eq!(&struts(&layouts.part, 0)[..5], &[(21, false), (22, true), (73, true), (74, true), (113, false)]);
}

#[test]
fn volume_layouts_turned_wraps_fifth_start() {
    let layouts = volume_layouts(2);
    let lens: Vec<usize> = layouts.part.segments.iter().map(|seg| seg.struts.len()).collect();
    assert_eq!(lens, vec![35, 35, 85, 20]);
    let ring_lens: Vec<usize> = layouts
        .section
        .segments
        .iter()
        .map(|seg| seg.struts.len())
        .collect();
    assert_eq!(ring_lens, vec![6, 6, 6, 6, 6, 5, 8, 1, 8, 1, 1, 1]);
}

#[test]
fn volume_struts_light_once() {
    for offset in 0..4 {
        let layouts = volume_layouts(offset);
        let mut seen = vec![false; 190];
        for seg in &layouts.part.segments {
            for strut in &seg.struts {
                assert!(!seen[strut.index]);
                seen[strut.index] = true;
            }
        }
        for (k, seg) in layouts.part.segments.iter().enumerate() {
            for strut in &seg.struts {
                assert_eq!(layouts.part.segment_index_of_strut(strut.index), Some(k));
            }
        }
    }
}

#[test]
fn push_unique_strut_keeps_first_of_an_index() {
    let mut v = vec![s(3, false)];
    push_unique_strut(&mut v, s(3, true));
    assert_eq!(v, vec![s(3, false)]);
    push_unique_strut(&mut v, s(4, true));
    assert_eq!(v, vec![s(3, false), s(4, true)]);
}

#[test]
fn layout_maps_struts_to_last_segment() {
    let layout = VolumeStrutLayout::new(vec![
        VolumeStrutLayoutSegment { struts: vec![s(1, false), s(2, false)] },
        VolumeStrutLayoutSegment { struts: vec![s(2, true)] },
    ]);
    assert_eq!(layout.segment_index_of_strut(1), Some(0));
    assert_eq!(layout.segment_index_of_strut(2), Some(1));
    assert_eq!(layout.segment_index_of_strut(3), None);
}

#[test]
fn concentric_layouts_light_each_strut_once() {
    for start in [0usize, 22, 45, 70] {
        let layout = concentric_layout_from_starting_points(&[start], 6);
        let mut seen = vec![false; 190];
        for (k, seg) in layout.segments.iter().enumerate() {
            for strut in &seg.struts {
                assert!(!seen[strut.index]);
                seen[strut.index] = true;
                assert_eq!(layout.segment_index_of_strut(strut.index), Some(k));
            }
        }
    }
}
