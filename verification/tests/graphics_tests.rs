use starfarer::lepton::fonts::{atlas_fits, atlas_layout, build_atlas, kern_table, AtlasLayout, GlyphRaster, N_CHARS};
use starfarer::lepton::graphics::primitives::QueueFamilyIndices;
use starfarer::lepton::graphics::resources::{
    compiled_layout, descriptor_pool_counts, layout_transition, mip_blits, LayoutTransition, MipBlit,
    IMAGE_LAYOUT_COLOR_ATTACHMENT_OPTIMAL, IMAGE_LAYOUT_SHADER_READ_ONLY_OPTIMAL, IMAGE_LAYOUT_TRANSFER_DST_OPTIMAL,
    IMAGE_LAYOUT_UNDEFINED,
};
use starfarer::lepton::graphics::select::{
    check_device_extension_support, choose_swapchain_extent, find_supported_format, FormatFeatures,
    IMAGE_TILING_LINEAR, IMAGE_TILING_OPTIMAL, choose_swapchain_format,
    choose_swapchain_present_mode, find_memory_type, find_queue_family, is_physical_device_suitable,
    max_usable_sample_count, Extent2D, QueueFamily, SurfaceFormat, COLOR_SPACE_SRGB_NONLINEAR,
    FORMAT_B8G8R8A8_SRGB, PRESENT_MODE_FIFO, PRESENT_MODE_MAILBOX,
};
use starfarer::lepton::ui::font::{glyph_index_start, glyph_quad_indices, kern_index, spaced_kerns, text_kern_sum};

#[test]
fn sample_count_from_the_smaller_mask() {
    assert_eq!(max_usable_sample_count(127, 15), 8);
    assert_eq!(max_usable_sample_count(3, 3), 2);
    assert_eq!(max_usable_sample_count(1, 1), 1);
    assert_eq!(max_usable_sample_count(65, 127), 64);
    assert_eq!(max_usable_sample_count(0, 127), 1);
}

#[test]
fn memory_type_first_fit() {
    assert_eq!(find_memory_type(0b110, 0b10, &[0b10, 0b01, 0b11]), Some(2));
    assert_eq!(find_memory_type(0b111, 0b10, &[0b10, 0b01, 0b11]), Some(0));
    assert_eq!(find_memory_type(0b001, 0b01, &[0b10, 0b01, 0b11]), None);
    assert_eq!(find_memory_type(0b111, 0b100, &[0b10, 0b01, 0b11]), None);
    assert_eq!(find_memory_type(0b111, 0, &[]), None);
}

#[test]
fn swapchain_format_prefers_srgb() {
    let srgb = SurfaceFormat { format: FORMAT_B8G8R8A8_SRGB, color_space: COLOR_SPACE_SRGB_NONLINEAR };
    let other = SurfaceFormat { format: 44, color_space: 0 };
    let wrong_space = SurfaceFormat { format: FORMAT_B8G8R8A8_SRGB, color_space: 1 };
    assert_eq!(choose_swapchain_format(&[other, srgb]), srgb);
    assert_eq!(choose_swapchain_format(&[other, wrong_space]), other);
    assert_eq!(choose_swapchain_format(&[wrong_space]), wrong_space);
}

#[test]
fn present_mode_prefers_mailbox() {
    assert_eq!(choose_swapchain_present_mode(&[PRESENT_MODE_FIFO, PRESENT_MODE_MAILBOX]), PRESENT_MODE_MAILBOX);
    assert_eq!(choose_swapchain_present_mode(&[0, PRESENT_MODE_FIFO]), PRESENT_MODE_FIFO);
    assert_eq!(choose_swapchain_present_mode(&[]), PRESENT_MODE_FIFO);
}

#[test]
fn swapchain_extent_clamps_the_window() {
    let min = Extent2D { width: 100, height: 100 };
    let max = Extent2D { width: 4096, height: 4096 };
    let current = Extent2D { width: 800, height: 600 };
    assert_eq!(choose_swapchain_extent(current, min, max, Extent2D { width: 5, height: 5 }), current);
    let unset = Extent2D { width: u32::MAX, height: 0 };
    assert_eq!(
        choose_swapchain_extent(unset, min, max, Extent2D { width: 5000, height: 10 }),
        Extent2D { width: 4096, height: 100 }
    );
    assert_eq!(
        choose_swapchain_extent(unset, min, max, Extent2D { width: 1024, height: 768 }),
        Extent2D { width: 1024, height: 768 }
    );
}

fn family(queue_count: u32, graphics: bool, present: bool) -> QueueFamily {
    QueueFamily { queue_count, graphics, present }
}

#[test]
fn queue_families_found_in_order() {
    let found = find_queue_family(&[
        family(0, true, true),
        family(1, true, false),
        family(1, false, true),
        family(1, true, true),
    ]);
    assert_eq!((found.graphics_family, found.present_family), (Some(1), Some(2)));
    let found = find_queue_family(&[family(1, true, false), family(2, true, false)]);
    assert_eq!((found.graphics_family, found.present_family), (Some(1), None));
    let found = find_queue_family(&[]);
    assert!(!found.is_complete());
}

#[test]
fn device_extensions_must_all_be_offered() {
    let swapchain = b"VK_KHR_swapchain".to_vec();
    let available = vec![b"VK_other".to_vec(), swapchain.clone()];
    assert!(check_device_extension_support(&vec![swapchain.clone()], &available));
    assert!(check_device_extension_support(&vec![], &available));
    assert!(!check_device_extension_support(&vec![b"VK_KHR_swap".to_vec()], &available));
    assert!(!check_device_extension_support(&vec![swapchain], &vec![]));
}

#[test]
fn device_suitability() {
    let complete = QueueFamilyIndices { graphics_family: Some(0), present_family: Some(0) };
    let partial = QueueFamilyIndices { graphics_family: Some(0), present_family: None };
    assert!(is_physical_device_suitable(&complete, true, 2, 1, 1));
    assert!(!is_physical_device_suitable(&partial, true, 2, 1, 1));
    assert!(!is_physical_device_suitable(&complete, false, 2, 1, 1));
    assert!(!is_physical_device_suitable(&complete, true, 0, 1, 1));
    assert!(!is_physical_device_suitable(&complete, true, 2, 0, 1));
    assert!(!is_physical_device_suitable(&complete, true, 2, 1, 0));
}

#[test]
fn mip_chain_halves_each_level() {
    let blits = mip_blits(16, 4, 5);
    assert_eq!(
        blits,
        vec![
            MipBlit { level: 1, src_width: 16, src_height: 4, dst_width: 8, dst_height: 2 },
            MipBlit { level: 2, src_width: 8, src_height: 2, dst_width: 4, dst_height: 1 },
            MipBlit { level: 3, src_width: 4, src_height: 1, dst_width: 2, dst_height: 1 },
            MipBlit { level: 4, src_width: 2, src_height: 1, dst_width: 1, dst_height: 1 },
        ]
    );
    assert!(mip_blits(16, 16, 1).is_empty());
}

#[test]
fn descriptor_pool_sizes() {
    assert_eq!(descriptor_pool_counts(3, 2, 4), (24, 12, 36));
    assert_eq!(descriptor_pool_counts(2, 0, 5), (0, 10, 10));
}

#[test]
fn compiled_model_split() {
    assert_eq!(compiled_layout(100, 5, 8), (10, 80));
    assert_eq!(compiled_layout(100, 5, 7), (11, 80));
}

fn glyph(width: usize, height: usize, xmin: i32, ymin: i32, bitmap: Vec<u8>) -> GlyphRaster {
    GlyphRaster { width, height, xmin, ymin, bitmap }
}

#[test]
fn atlas_of_one_glyph() {
    let mut glyphs = vec![glyph(2, 2, 0, 0, vec![1, 2, 3, 4])];
    for _ in 1..N_CHARS {
        glyphs.push(glyph(0, 0, 0, 0, vec![]));
    }
    let (layout, image) = build_atlas(&glyphs);
    assert_eq!(
        layout,
        AtlasLayout { max_width: 2, max_height: 2, baseline: 0, image_width: 24, image_height: 16 }
    );
    assert_eq!(image.len(), 24 * 16);
    // The glyph sits in the bottom-left cell; its bottom bitmap row is
    // written to the cell's upper image row.
    assert_eq!(image[14 * 24], 3);
    assert_eq!(image[14 * 24 + 1], 4);
    assert_eq!(image[15 * 24], 1);
    assert_eq!(image[15 * 24 + 1], 2);
    assert_eq!(image.iter().map(|b| *b as u32).sum::<u32>(), 10);
}

#[test]
fn atlas_places_glyphs_row_by_row() {
    let glyphs: Vec<GlyphRaster> = (0..N_CHARS).map(|g| glyph(1, 1, 0, 0, vec![g as u8 + 1])).collect();
    let layout = atlas_layout(&glyphs);
    assert_eq!((layout.image_width, layout.image_height), (12, 8));
    let (_, image) = build_atlas(&glyphs);
    for g in 0..N_CHARS {
        let (row, col) = (g / 12, g % 12);
        assert_eq!(image[(7 - row) * 12 + col], g as u8 + 1);
    }
}

#[test]
fn atlas_clamps_offsets_to_the_border() {
    let mut glyphs = vec![glyph(1, 1, -5, 0, vec![9])];
    for _ in 1..N_CHARS {
        glyphs.push(glyph(1, 2, 0, -1, vec![0, 0]));
    }
    let (layout, image) = build_atlas(&glyphs);
    assert_eq!(layout.baseline, 1);
    assert_eq!((layout.image_width, layout.image_height), (12, 16));
    // Column -5 is moved to column 0; row 16 - 2 + 0 + 0 + 1 = 15.
    assert_eq!(image[15 * 12], 9);
}

#[test]
fn kern_table_subtracts_the_spare_width() {
    let mut glyphs: Vec<GlyphRaster> = (0..N_CHARS).map(|_| glyph(3, 0, 0, 0, vec![])).collect();
    glyphs[1] = glyph(1, 0, 0, 0, vec![]);
    let mut raw = vec![0i32; N_CHARS * N_CHARS];
    raw[5] = 4;
    raw[N_CHARS + 2] = 10;
    let table = kern_table(&glyphs, 3, &raw).unwrap();
    assert_eq!(table.len(), N_CHARS * N_CHARS);
    assert_eq!(table[0], 0);
    assert_eq!(table[5], 4);
    assert_eq!(table[N_CHARS], -2);
    assert_eq!(table[N_CHARS + 2], 8);
}

#[test]
fn kern_table_with_a_glyph_wider_than_its_cell() {
    let mut glyphs: Vec<GlyphRaster> = (0..N_CHARS).map(|_| glyph(3, 0, 0, 0, vec![])).collect();
    glyphs[2] = glyph(5, 0, 0, 0, vec![]);
    let raw = vec![1i32; N_CHARS * N_CHARS];
    let table = kern_table(&glyphs, 3, &raw).unwrap();
    assert_eq!(table[2 * N_CHARS + 7], 3);
    assert_eq!(table[7], 1);
}

#[test]
fn kern_table_reports_the_first_kern_out_of_range() {
    let mut glyphs: Vec<GlyphRaster> = (0..N_CHARS).map(|_| glyph(3, 0, 0, 0, vec![])).collect();
    glyphs[0] = glyph(1, 0, 0, 0, vec![]);
    let mut raw = vec![0i32; N_CHARS * N_CHARS];
    raw[7] = -127;
    raw[9] = 500;
    assert_eq!(kern_table(&glyphs, 3, &raw), Err(-129));
    raw[7] = 0;
    assert_eq!(kern_table(&glyphs, 3, &raw), Err(498));
    raw[9] = 129;
    assert_eq!(kern_table(&glyphs, 3, &raw).unwrap()[9], 127);
}

#[test]
fn font_quads_index_two_triangles_each() {
    let indices = glyph_quad_indices();
    assert_eq!(indices.len(), 6 * N_CHARS);
    assert_eq!(&indices[0..6], &[0, 1, 2, 1, 3, 2]);
    assert_eq!(&indices[6..12], &[4, 5, 6, 5, 7, 6]);
    assert_eq!(indices[6 * N_CHARS - 1], 4 * (N_CHARS as u32 - 1) + 2);
}

#[test]
fn font_lookups() {
    assert_eq!(kern_index(32, 32), 0);
    assert_eq!(kern_index(33, 34), N_CHARS + 2);
    assert_eq!(kern_index(127, 127), N_CHARS * N_CHARS - 1);
    assert_eq!(glyph_index_start(31), None);
    assert_eq!(glyph_index_start(32), Some(0));
    assert_eq!(glyph_index_start('A' as u32), Some(6 * 33));
    assert_eq!(glyph_index_start(128), None);
}

#[test]
fn kerns_widened_by_spacing() {
    assert_eq!(spaced_kerns(&[0xFF, 2, 0x80], 3), vec![2, 5, -125]);
    assert_eq!(spaced_kerns(&[], 3), Vec::<i8>::new());
}

#[test]
fn kerns_of_a_line_of_text() {
    let mut kerns = vec![0i8; N_CHARS * N_CHARS];
    kerns[kern_index('A' as u32, 'V' as u32)] = -3;
    kerns[kern_index('V' as u32, 'A' as u32)] = -2;
    kerns[kern_index('A' as u32, 'A' as u32)] = 1;
    let text: Vec<char> = "AVAA".chars().collect();
    assert_eq!(text_kern_sum(&kerns, &text), -3 - 2 + 1);
    assert_eq!(text_kern_sum(&kerns, &['A']), 0);
    assert_eq!(text_kern_sum(&kerns, &[]), 0);
}

#[test]
fn layout_transitions_the_engine_makes() {
    assert_eq!(
        layout_transition(IMAGE_LAYOUT_UNDEFINED, IMAGE_LAYOUT_TRANSFER_DST_OPTIMAL),
        Some(LayoutTransition { src_access_mask: 0, dst_access_mask: 0x1000, source_stage: 0x1, destination_stage: 0x1000 })
    );
    assert_eq!(
        layout_transition(IMAGE_LAYOUT_TRANSFER_DST_OPTIMAL, IMAGE_LAYOUT_SHADER_READ_ONLY_OPTIMAL),
        Some(LayoutTransition { src_access_mask: 0x1000, dst_access_mask: 0x20, source_stage: 0x1000, destination_stage: 0x80 })
    );
    assert_eq!(
        layout_transition(IMAGE_LAYOUT_UNDEFINED, IMAGE_LAYOUT_COLOR_ATTACHMENT_OPTIMAL),
        Some(LayoutTransition { src_access_mask: 0, dst_access_mask: 0x180, source_stage: 0x1, destination_stage: 0x400 })
    );
    assert_eq!(layout_transition(IMAGE_LAYOUT_SHADER_READ_ONLY_OPTIMAL, IMAGE_LAYOUT_UNDEFINED), None);
    assert_eq!(layout_transition(IMAGE_LAYOUT_UNDEFINED, IMAGE_LAYOUT_SHADER_READ_ONLY_OPTIMAL), None);
}

#[test]
fn supported_format_first_offering_the_features() {
    let candidates = [
        FormatFeatures { linear_tiling_features: 0x200, optimal_tiling_features: 0 },
        FormatFeatures { linear_tiling_features: 0, optimal_tiling_features: 0x201 },
        FormatFeatures { linear_tiling_features: 0x200, optimal_tiling_features: 0x200 },
    ];
    assert_eq!(find_supported_format(&candidates, IMAGE_TILING_OPTIMAL, 0x200), Some(1));
    assert_eq!(find_supported_format(&candidates, IMAGE_TILING_LINEAR, 0x200), Some(0));
    assert_eq!(find_supported_format(&candidates, IMAGE_TILING_OPTIMAL, 0x400), None);
    assert_eq!(find_supported_format(&candidates, 7, 0x200), None);
    assert_eq!(find_supported_format(&[], IMAGE_TILING_OPTIMAL, 0), None);
}

#[test]
fn atlas_input_is_tested() {
    let good: Vec<GlyphRaster> = (0..N_CHARS).map(|_| glyph(1, 1, -3, 2, vec![9])).collect();
    assert!(atlas_fits(&good));
    let too_few: Vec<GlyphRaster> = (1..N_CHARS).map(|_| glyph(1, 1, 0, 0, vec![9])).collect();
    assert!(!atlas_fits(&too_few));
    let mut short_bitmap = good.iter().map(|g| glyph(g.width, g.height, g.xmin, g.ymin, g.bitmap.clone())).collect::<Vec<_>>();
    short_bitmap[5] = glyph(2, 2, 0, 0, vec![1, 2, 3]);
    assert!(!atlas_fits(&short_bitmap));
    let mut lowest = good.iter().map(|g| glyph(g.width, g.height, g.xmin, g.ymin, g.bitmap.clone())).collect::<Vec<_>>();
    lowest[0] = glyph(0, 0, 0, i32::MIN, vec![]);
    assert!(!atlas_fits(&lowest));
    let mut huge = good.iter().map(|g| glyph(g.width, g.height, g.xmin, g.ymin, g.bitmap.clone())).collect::<Vec<_>>();
    huge[0] = glyph(usize::MAX / 8, 0, 0, 0, vec![]);
    assert!(!atlas_fits(&huge));
}
