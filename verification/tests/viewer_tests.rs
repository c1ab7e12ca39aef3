//! Viewer-side state types: packet headers, export formats, panel state.

use alice_view::{
    AlzContentType, AlzHeader, AspHeader, AspPacketType, ExportFormat, MotionVectorCompact,
    RenderMode, SdfPanel, SdfScene, XRayType,
};

#[test]
fn alz_header_validity() {
    let mut h = AlzHeader {
        magic: *b"ALICE",
        version: 1,
        content_type: 2,
        flags: 0,
        original_size: 10,
        compressed_size: 5,
    };
    assert!(h.is_valid());
    h.magic = *b"NOPE!";
    assert!(!h.is_valid());
}

#[test]
fn alz_content_tags() {
    assert_eq!(AlzContentType::from_u8(0), Some(AlzContentType::RawLzma));
    assert_eq!(AlzContentType::from_u8(1), Some(AlzContentType::Perlin));
    assert_eq!(AlzContentType::from_u8(5), Some(AlzContentType::Fractal));
    assert_eq!(AlzContentType::from_u8(6), None);
}

#[test]
fn asp_header_validity_and_packets() {
    let h = AspHeader {
        magic: [0x41, 0x53, 0x50, 0x01],
        packet_type: 0x49,
        flags: 0,
        reserved: 0,
        sequence: 1,
        payload_size: 0,
    };
    assert!(h.is_valid());
    let bad = AspHeader { magic: [0x41, 0x53, 0x50, 0x02], ..h };
    assert!(!bad.is_valid());

    assert_eq!(AspPacketType::from_u8(0x49), Some(AspPacketType::IPacket));
    assert_eq!(AspPacketType::from_u8(0x44), Some(AspPacketType::DPacket));
    assert_eq!(AspPacketType::from_u8(0x43), Some(AspPacketType::CPacket));
    assert_eq!(AspPacketType::from_u8(0x53), Some(AspPacketType::SPacket));
    assert_eq!(AspPacketType::from_u8(0x00), None);

    let mv = MotionVectorCompact { dx: -3, dy: 5 };
    assert_eq!((mv.dx, mv.dy), (-3, 5));
}

#[test]
fn export_format_labels() {
    assert_eq!(ExportFormat::Glb.extension(), "glb");
    assert_eq!(ExportFormat::Obj.extension(), "obj");
    assert_eq!(ExportFormat::Glb.filter_name(), "glTF Binary");
    assert_eq!(ExportFormat::Obj.filter_name(), "Wavefront OBJ");
}

#[test]
fn sdf_scene_names_and_demos() {
    assert_eq!(SdfScene::CarvedSphere.name(), "Carved Sphere");
    assert_eq!(SdfScene::LoadedAsdf.name(), "Loaded .asdf");
    let demos = SdfScene::all_demo();
    assert_eq!(demos.len(), 6);
    assert_eq!(demos[0], SdfScene::CarvedSphere);
    assert!(!demos.contains(&SdfScene::LoadedAsdf));
}

#[test]
fn sdf_panel_dynamic_scene_selection() {
    let mut panel = SdfPanel::new();
    assert_eq!(panel.scene_id(), 0);
    assert_eq!(panel.export_resolution, 64);
    panel.set_dynamic_sdf(true, Some("42 nodes".to_string()));
    assert_eq!(panel.scene, SdfScene::LoadedAsdf);
    assert_eq!(panel.scene_id(), 100);
    assert_eq!(panel.loaded_asdf_info.as_deref(), Some("42 nodes"));
    panel.set_dynamic_sdf(false, None);
    assert_eq!(panel.scene, SdfScene::LoadedAsdf);
    assert!(!panel.has_dynamic_sdf);
}

#[test]
fn render_mode_toggle_and_xray_cycle() {
    assert_eq!(RenderMode::Procedural2D.toggled(), RenderMode::Sdf3D);
    assert_eq!(RenderMode::Sdf3D.toggled(), RenderMode::Procedural2D);

    let mut x = XRayType::MotionVectors;
    x = x.next();
    assert_eq!(x, XRayType::FftHeatmap);
    x = x.next();
    assert_eq!(x, XRayType::EquationOverlay);
    x = x.next();
    assert_eq!(x, XRayType::Wireframe);
    x = x.next();
    assert_eq!(x, XRayType::MotionVectors);
}
