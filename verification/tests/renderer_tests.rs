use compositor_core::register_request::{port_response, Port, Response, RtpInputStream};
use compositor_core::renderer::{
    Frame, FrameSet, OutputScene, Renderer, RendererOptions, UpdateSceneError, WebRendererOptions,
};
use compositor_core::transformations::{
    BuiltinTransformationSpec, BuiltinTransformations, Coord, Degree, RGBAColor, ShaderKind,
    ShaderParam, TextureLayout, TransformToResolution,
};
use compositor_core::types::{Framerate, InputId, OutputId, Resolution};

fn renderer() -> Renderer {
    Renderer::new(RendererOptions {
        web_renderer: WebRendererOptions {
            init: false,
            disable_gpu: false,
        },
        framerate: Framerate(30),
        stream_fallback_timeout: 500_000_000,
    })
    .unwrap()
}

#[test]
fn render_produces_one_frame_per_output_at_same_pts() {
    let mut r = renderer();
    let out_a = OutputScene {
        output_id: OutputId(1),
        resolution: Resolution {
            width: 1280,
            height: 720,
        },
    };
    let out_b = OutputScene {
        output_id: OutputId(2),
        resolution: Resolution {
            width: 640,
            height: 360,
        },
    };
    r.update_scene(vec![out_a, out_b]).unwrap();
    let inputs = FrameSet {
        frames: vec![(
            InputId(5),
            Frame {
                resolution: Resolution {
                    width: 800,
                    height: 600,
                },
            },
        )],
        pts: 42,
    };
    let out = r.render(inputs).unwrap();
    assert_eq!(out.pts, 42);
    assert_eq!(out.frames.len(), 2);
    assert_eq!(out.frames[0].0, OutputId(1));
    assert_eq!(
        out.frames[0].1.resolution,
        Resolution {
            width: 1280,
            height: 720
        }
    );
    assert_eq!(out.frames[1].0, OutputId(2));
}

#[test]
fn update_scene_rejects_duplicate_outputs() {
    let mut r = renderer();
    let scene = OutputScene {
        output_id: OutputId(1),
        resolution: Resolution {
            width: 100,
            height: 100,
        },
    };
    r.update_scene(vec![scene]).unwrap();
    let dup = vec![scene, scene];
    match r.update_scene(dup) {
        Err(UpdateSceneError::DuplicateOutputId(id)) => assert_eq!(id, OutputId(1)),
        _ => panic!("duplicate outputs must be rejected"),
    }
    // The earlier scene stays installed.
    let out = r
        .render(FrameSet {
            frames: Vec::new(),
            pts: 0,
        })
        .unwrap();
    assert_eq!(out.frames.len(), 1);
}

#[test]
fn shader_selection_follows_transformation() {
    let t = BuiltinTransformations::new().unwrap();
    let stretch = BuiltinTransformationSpec::TransformToResolution(TransformToResolution::Stretch);
    let fill = BuiltinTransformationSpec::TransformToResolution(TransformToResolution::Fill);
    let fit = BuiltinTransformationSpec::TransformToResolution(TransformToResolution::Fit {
        background_color_rgba: RGBAColor(0, 0, 0, 255),
    });
    let layout = BuiltinTransformationSpec::FixedPositionLayout {
        texture_layouts: Vec::new(),
        background_color_rgba: RGBAColor(0, 0, 0, 255),
    };
    assert_eq!(t.shader(&stretch).kind, ShaderKind::StretchToResolution);
    assert_eq!(t.shader(&fill).kind, ShaderKind::FillToResolution);
    assert_eq!(t.shader(&fit).kind, ShaderKind::FitToResolution);
    assert_eq!(t.shader(&layout).kind, ShaderKind::FixedPositionLayout);
}

#[test]
fn params_resolves_layout_coordinates() {
    let res = Resolution {
        width: 1920,
        height: 1080,
    };
    let spec = BuiltinTransformationSpec::FixedPositionLayout {
        texture_layouts: vec![TextureLayout {
            top: Coord::Percent(50),
            left: Coord::Pixel(-10),
            rotation: Degree(90),
        }],
        background_color_rgba: RGBAColor(1, 2, 3, 4),
    };
    let p = BuiltinTransformations::params(&spec, &res).unwrap();
    match p {
        ShaderParam::List(items) => {
            assert_eq!(items.len(), 1);
            match &items[0] {
                ShaderParam::Struct(fields) => {
                    assert_eq!(fields.len(), 4);
                    assert_eq!(fields[0].field_name, "top");
                    assert!(matches!(fields[0].value, ShaderParam::I32(540)));
                    assert_eq!(fields[1].field_name, "left");
                    assert!(matches!(fields[1].value, ShaderParam::I32(-10)));
                    assert_eq!(fields[2].field_name, "rotation");
                    assert!(matches!(fields[2].value, ShaderParam::I32(90)));
                    assert_eq!(fields[3].field_name, "_padding");
                    assert!(matches!(fields[3].value, ShaderParam::I32(0)));
                }
                _ => panic!("layout parameter must be a struct"),
            }
        }
        _ => panic!("fixed position layout parameters must be a list"),
    }
}

#[test]
fn params_is_none_for_resolution_transforms() {
    let res = Resolution {
        width: 10,
        height: 10,
    };
    let spec = BuiltinTransformationSpec::TransformToResolution(TransformToResolution::Stretch);
    assert!(BuiltinTransformations::params(&spec, &res).is_none());
}

#[test]
fn percent_coordinates_round_toward_zero_and_clamp() {
    assert_eq!(Coord::Percent(50).pixels(1080), 540);
    assert_eq!(Coord::Percent(-50).pixels(101), -50);
    assert_eq!(Coord::Percent(33).pixels(100), 33);
    assert_eq!(Coord::Pixel(7).pixels(0), 7);
    // A percentage far past the output clamps to the representable range.
    assert_eq!(Coord::Percent(2_000_000_000).pixels(4_000_000_000), i32::MAX);
    assert_eq!(
        Coord::Percent(-2_000_000_000).pixels(4_000_000_000),
        i32::MIN
    );
}

#[test]
fn port_response_reports_bound_port() {
    assert_eq!(
        port_response(Some(Port(8000))),
        Response::RegisteredPort { port: 8000 }
    );
    assert_eq!(port_response(None), Response::Accepted);
    let req = RtpInputStream { port: Port(9000) };
    assert_eq!(req.port, Port(9000));
}
