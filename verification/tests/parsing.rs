use rasterizer::common::Color;
use rasterizer::common::Point2D;
use rasterizer::config::{Config, ConfigError, DrawMode, DEFAULT_DISTANCE, DEFAULT_ROTATION};
use rasterizer::fixed::{FX_HALF, FX_ONE};
use rasterizer::model::{
    bytes_eq, parse_fixed, parse_int, parse_obj_lines, Materials, Model, ModelErrorType,
    ModelParser, ParseRequest,
};
use rasterizer::picture::{channel_to_byte, Picture};
use rasterizer::console_screen::ConsoleScreen;
use rasterizer::texture::Texture;

fn b(text: &str) -> Vec<u8> {
    text.as_bytes().to_vec()
}

fn parse_model(text: &str) -> Result<Model, ModelErrorType> {
    let mut parser = ModelParser::new();
    let lines = parse_obj_lines(&b(text));
    for mut line in lines {
        match parser.parse_obj_line(&mut line) {
            Ok(ParseRequest::NoRequest) => {}
            Ok(ParseRequest::MaterialLibrary(_)) => {}
            Err(e) => return Err(e),
        }
    }
    Ok(parser.finish())
}

#[test]
fn integers_parse_exactly() {
    assert_eq!(parse_int(&b("0")), Some(0));
    assert_eq!(parse_int(&b("42")), Some(42));
    assert_eq!(parse_int(&b("-17")), Some(-17));
    assert_eq!(parse_int(&b("+5")), Some(5));
    assert_eq!(parse_int(&b("")), None);
    assert_eq!(parse_int(&b("-")), None);
    assert_eq!(parse_int(&b("12x")), None);
    assert_eq!(parse_int(&b("99999999999999999999")), None);
}

#[test]
fn decimals_parse_to_fixed_point() {
    assert_eq!(parse_fixed(&b("50")), Some(50 * FX_ONE));
    assert_eq!(parse_fixed(&b("0.5")), Some(FX_HALF));
    assert_eq!(parse_fixed(&b("-1.5")), Some(-(FX_ONE + FX_HALF)));
    assert_eq!(parse_fixed(&b("0.25")), Some(FX_ONE / 4));
    assert_eq!(parse_fixed(&b("2.")), Some(2 * FX_ONE));
    assert_eq!(parse_fixed(&b("")), None);
    assert_eq!(parse_fixed(&b("abc")), None);
    assert_eq!(parse_fixed(&b("1.2.3")), None);
}

#[test]
fn geometry_lines_fill_the_model() {
    let model = parse_model("v 0 0 0\nv 1 0 0\nv 0 1 0\nf 1 2 3\n").unwrap();
    assert_eq!(model.vertices.len(), 9);
    assert_eq!(model.vertices[3], FX_ONE);
    // The fan records each triangle as its two walked corners, then the
    // hub corner.
    assert_eq!(model.indices, vec![1, 2, 0]);
    assert_eq!(model.material_indices, vec![None]);
    assert!(model.check_draw_wf());
}

#[test]
fn comments_and_blank_lines_are_skipped() {
    let model = parse_model("# a comment\n\nv 1 2 3 # trailing\n").unwrap();
    assert_eq!(model.vertices.len(), 3);
    assert_eq!(model.vertices[0], FX_ONE);
    assert_eq!(model.vertices[1], 2 * FX_ONE);
    assert_eq!(model.vertices[2], 3 * FX_ONE);
}

#[test]
fn faces_with_corner_data_use_the_pools() {
    let text = "v 0 0 0\nv 1 0 0\nv 0 1 0\nvt 0 0\nvt 1 0\nvt 0 1\nvn 0 0 1\nf 1/1/1 2/2/1 3/3/1\n";
    let model = parse_model(text).unwrap();
    assert_eq!(model.indices, vec![1, 2, 0]);
    assert_eq!(model.uvs.len(), 3);
    assert_eq!(model.uvs[0].x, FX_ONE);
    assert_eq!(model.normals.len(), 3);
    assert_eq!(model.normals[0].z, FX_ONE);
}

#[test]
fn a_quad_face_becomes_a_fan_of_two_triangles() {
    let text = "v 0 0 0\nv 1 0 0\nv 1 1 0\nv 0 1 0\nf 1 2 3 4\n";
    let model = parse_model(text).unwrap();
    assert_eq!(model.indices, vec![1, 2, 0, 2, 3, 0]);
    assert_eq!(model.material_indices.len(), 2);
}

#[test]
fn negative_face_indices_count_from_the_buffer_end() {
    // A negative corner index counts back from the flat vertex buffer's
    // length.
    let text = "v 0 0 0\nv 1 0 0\nv 0 1 0\nf -9 -8 -7\n";
    let model = parse_model(text).unwrap();
    assert_eq!(model.indices, vec![1, 2, 0]);
}

#[test]
fn malformed_lines_are_reported() {
    assert!(matches!(
        parse_model("v 1 2\n"),
        Err(ModelErrorType::MissingValue)
    ));
    assert!(matches!(
        parse_model("v a b c\n"),
        Err(ModelErrorType::ParsingError(_))
    ));
    assert!(matches!(
        parse_model("v 1 2 3\nf 1 2\n"),
        Err(ModelErrorType::GenericError)
    ));
    assert!(matches!(
        parse_model("f x y z\n"),
        Err(ModelErrorType::GenericError)
    ));
}

#[test]
fn material_lines_build_the_table() {
    let mut parser = ModelParser::new();
    let lines = parse_obj_lines(&b("newmtl shiny\nKd 0.5 0.5 0.5\nmap_Kd tex.png\n"));
    let mut texture_request = None;
    for mut line in lines {
        match parser.parse_mtl_line(&mut line).unwrap() {
            Some(path) => texture_request = Some(path),
            None => {}
        }
    }
    assert!(bytes_eq(&texture_request.unwrap(), &b("tex.png")));
    parser.end_material_library();
    let model = parser.finish();
    assert_eq!(model.materials.len(), 1);
    let color = model.materials[0].diffuse_color.unwrap();
    assert_eq!(color.r, FX_HALF);
}

#[test]
fn duplicate_material_names_are_refused() {
    let mut materials = Materials::new();
    assert!(materials.add(b("a")).is_ok());
    assert!(matches!(
        materials.add(b("a")),
        Err(ModelErrorType::Material(None))
    ));
    assert!(matches!(
        materials.set_current(&b("missing")),
        Err(ModelErrorType::MissingMaterial)
    ));
    assert!(materials.set_current(&b("a")).is_ok());
    assert_eq!(materials.current_index(), Some(0));
    materials.clear_current();
    assert_eq!(materials.current_index(), None);
}

#[test]
fn mtllib_lines_request_the_library_file() {
    let mut parser = ModelParser::new();
    let lines = parse_obj_lines(&b("mtllib dir\\\\file.mtl\n"));
    let mut request = None;
    for mut line in lines {
        if let Ok(ParseRequest::MaterialLibrary(path)) = parser.parse_obj_line(&mut line) {
            request = Some(path);
        }
    }
    // Backslashes are straightened into forward slashes.
    assert!(bytes_eq(&request.unwrap(), &b("dir//file.mtl")));
}

#[test]
fn config_defaults_from_a_bare_path() {
    let config = Config::parse(vec![b("model.obj")]).unwrap();
    assert!(bytes_eq(&config.model_path, &b("model.obj")));
    assert!(matches!(config.draw_mode, DrawMode::Picture));
    assert_eq!(config.size, None);
    assert_eq!(config.distance, DEFAULT_DISTANCE);
    assert_eq!(config.rotation, DEFAULT_ROTATION);
    assert!(!config.undeferred);
}

#[test]
fn config_flags_are_recognized() {
    let config = Config::parse(vec![
        b("-m"),
        b("Console"),
        b("-s"),
        b("4 4"),
        b("-d"),
        b("12.5"),
        b("-r"),
        b("0.25"),
        b("-u"),
        b("m.obj"),
    ])
    .unwrap();
    assert!(matches!(config.draw_mode, DrawMode::Console));
    assert_eq!(config.size, Some((4, 4)));
    assert_eq!(config.distance, 12 * FX_ONE + FX_HALF);
    assert_eq!(config.rotation, FX_ONE / 4);
    assert!(config.undeferred);
}

#[test]
fn config_errors_name_their_cause() {
    assert!(matches!(Config::parse(vec![]), Err(ConfigError::PathMissing)));
    assert!(matches!(
        Config::parse(vec![b("-x"), b("m.obj")]),
        Err(ConfigError::InvalidArg(_))
    ));
    assert!(matches!(
        Config::parse(vec![b("-m"), b("nope"), b("m.obj")]),
        Err(ConfigError::ParseError(_))
    ));
    assert!(matches!(
        Config::parse(vec![b("-s"), b("4"), b("m.obj")]),
        Err(ConfigError::DimensionMissing)
    ));
    assert!(matches!(
        Config::parse(vec![b("-s"), b("a b"), b("m.obj")]),
        Err(ConfigError::ParseError(_))
    ));
}

#[test]
fn texture_lookup_clamps_and_flips() {
    let colors = vec![
        Color::new(1, 0, 0),
        Color::new(2, 0, 0),
        Color::new(3, 0, 0),
        Color::new(4, 0, 0),
    ];
    let texture = Texture::new((2, 2), colors);
    // Texture coordinates put the first stored row at the top: v = 0 reads
    // the bottom row.
    assert_eq!(texture.pixel(Point2D { x: 0, y: 0 }).r, 3);
    assert_eq!(texture.pixel(Point2D { x: FX_ONE, y: 0 }).r, 4);
    assert_eq!(texture.pixel(Point2D { x: 0, y: FX_ONE }).r, 1);
    // Coordinates beyond the unit square clamp to the border.
    assert_eq!(texture.pixel(Point2D { x: 3 * FX_ONE, y: -FX_ONE }).r, 4);
}

#[test]
fn color_channels_scale_to_image_bytes() {
    assert_eq!(channel_to_byte(0), 0);
    assert_eq!(channel_to_byte(FX_ONE), 255);
    assert_eq!(channel_to_byte(FX_HALF), 127);
    assert_eq!(channel_to_byte(-FX_ONE), 0);
    assert_eq!(channel_to_byte(3 * FX_ONE), 255);
}

#[test]
fn sinks_start_fresh() {
    let screen = ConsoleScreen::new();
    assert!(!screen.written);
    let picture = Picture::new(String::from("out.png"));
    assert_eq!(picture.filename, "out.png");
}
