use inertia::compute::{group_count, tile_count, ComputePipeline, ComputeShader};

#[test]
fn test_work_group_size_extraction() {
    let source = r#"
            #version 450
            layout(local_size_x = 16, local_size_y = 16) in;
            void main() {}
        "#;

    let size = ComputeShader::extract_work_group_size(source);
    assert_eq!(size, (16, 16, 1));
}

#[test]
fn work_group_size_defaults_to_one() {
    assert_eq!(ComputeShader::extract_work_group_size(""), (1, 1, 1));
    assert_eq!(ComputeShader::extract_work_group_size("void main() {}\n"), (1, 1, 1));
}

#[test]
fn work_group_size_all_axes_on_one_line() {
    let source = "layout(local_size_x = 8, local_size_y = 4, local_size_z = 2) in;";
    assert_eq!(ComputeShader::extract_work_group_size(source), (8, 4, 2));
}

#[test]
fn work_group_size_without_spaces() {
    let source = "layout(local_size_x=32,local_size_y=1) in;";
    assert_eq!(ComputeShader::extract_work_group_size(source), (32, 1, 1));
}

#[test]
fn work_group_size_later_line_overrides() {
    let source = "layout(local_size_x = 8) in;\nlayout(local_size_x = 64) in;\n";
    assert_eq!(ComputeShader::extract_work_group_size(source), (64, 1, 1));
}

#[test]
fn work_group_size_line_without_number_keeps_value() {
    let source = "layout(local_size_x = 8) in;\n// local_size_x is set above\n";
    assert_eq!(ComputeShader::extract_work_group_size(source), (8, 1, 1));
}

#[test]
fn work_group_size_key_without_equals_is_ignored() {
    let source = "layout(local_size_x 8) in;";
    assert_eq!(ComputeShader::extract_work_group_size(source), (1, 1, 1));
}

#[test]
fn work_group_size_number_after_other_text() {
    let source = "layout(local_size_x = size16) in;";
    assert_eq!(ComputeShader::extract_work_group_size(source), (16, 1, 1));
}

#[test]
fn work_group_size_leading_zeros() {
    let source = "layout(local_size_y = 0032) in;";
    assert_eq!(ComputeShader::extract_work_group_size(source), (1, 32, 1));
}

#[test]
fn work_group_size_overflow_is_ignored() {
    let source = "layout(local_size_x = 4294967296) in;";
    assert_eq!(ComputeShader::extract_work_group_size(source), (1, 1, 1));
    let source = "layout(local_size_x = 4294967295) in;";
    assert_eq!(ComputeShader::extract_work_group_size(source), (4294967295, 1, 1));
}

#[test]
fn work_group_size_non_ascii_numeral_is_ignored() {
    // An Arabic-Indic digit is numeric but does not parse as a u32.
    let source = "layout(local_size_x = 1\u{0663}) in;";
    assert_eq!(ComputeShader::extract_work_group_size(source), (1, 1, 1));
}

#[test]
fn work_group_size_crlf_lines() {
    let source = "#version 450\r\nlayout(local_size_x = 16, local_size_z = 4) in;\r\n";
    assert_eq!(ComputeShader::extract_work_group_size(source), (16, 1, 4));
}

#[test]
fn work_group_size_second_equals_ends_the_value() {
    // The value is looked for between the first and the second `=`.
    let source = "local_size_x = abc = 7";
    assert_eq!(ComputeShader::extract_work_group_size(source), (1, 1, 1));
}

#[test]
fn shader_from_source_keeps_program_and_size() {
    let shader = ComputeShader::from_source(7, "layout(local_size_x = 16, local_size_y = 8) in;");
    assert_eq!(shader.program_id(), 7);
    assert_eq!(shader.work_group_size(), (16, 8, 1));
}

#[test]
fn dispatch_groups_round_up() {
    let shader = ComputeShader::from_source(1, "layout(local_size_x = 16, local_size_y = 16) in;");
    assert_eq!(shader.dispatch_groups((256, 256, 1)), (16, 16, 1));
    assert_eq!(shader.dispatch_groups((257, 1, 3)), (17, 1, 3));
    assert_eq!(shader.dispatch_groups((0, 15, 0)), (0, 1, 0));
}

#[test]
fn group_count_is_ceiling() {
    assert_eq!(group_count(10, 3), 4);
    assert_eq!(group_count(9, 3), 3);
    assert_eq!(group_count(0, 8), 0);
    assert_eq!(group_count(1, 1), 1);
    // The groups cover the grid, one fewer would not.
    for grid in 0u32..100 {
        for local in 1u32..20 {
            let n = group_count(grid, local);
            assert!(n * local >= grid);
            assert!(n == 0 || (n - 1) * local < grid);
        }
    }
}

#[test]
fn tile_count_for_square_grid() {
    assert_eq!(tile_count(256), 256);
    assert_eq!(tile_count(250), 256);
    assert_eq!(tile_count(17), 4);
    assert_eq!(tile_count(0), 0);
}

#[test]
fn pipeline_indices() {
    let mut pipeline = ComputePipeline::new();
    assert!(pipeline.get_shader(0).is_none());
    let a = ComputeShader::from_source(3, "layout(local_size_x = 4) in;");
    let b = ComputeShader::from_source(5, "");
    pipeline.add_shader(a);
    let index = pipeline.load_shader(b);
    assert_eq!(index, 1);
    assert_eq!(pipeline.get_shader(0).unwrap().program_id(), 3);
    assert_eq!(pipeline.get_shader(1).unwrap().work_group_size(), (1, 1, 1));
    assert!(pipeline.get_shader(2).is_none());
    if let Some(shader) = pipeline.get_shader_mut(0) {
        *shader = ComputeShader::from_source(9, "");
    }
    assert_eq!(pipeline.get_shader(0).unwrap().program_id(), 9);
    assert!(pipeline.get_shader_mut(5).is_none());
}
