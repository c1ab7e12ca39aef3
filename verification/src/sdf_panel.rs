//! State of the 3-D scene control panel: scene selection and export
//! requests. Drawing the panel belongs to the UI layer; the decisions it
//! records live here.

use vstd::prelude::*;

use crate::export::ExportFormat;

verus! {

/// Selectable scenes for the 3-D view: the built-in demos plus the
/// scene loaded from a file, when one is available.
#[derive(Debug, Clone, Copy, PartialEq, Eq, Structural)]
pub enum SdfScene {
    /// Carved sphere with cylinders (default demo).
    CarvedSphere,
    /// Simple sphere.
    Sphere,
    /// Rounded box.
    RoundedBox,
    /// Torus knot.
    TorusKnot,
    /// Infinite pillars.
    InfinitePillars,
    /// Twisted box.
    TwistedBox,
    /// Scene loaded from a file.
    LoadedAsdf,
}

impl SdfScene {
    /// Display name of the scene.
    pub fn name(&self) -> (r: &'static str)
        ensures
            self is CarvedSphere ==> r@ == "Carved Sphere"@,
            self is Sphere ==> r@ == "Simple Sphere"@,
            self is RoundedBox ==> r@ == "Rounded Box"@,
            self is TorusKnot ==> r@ == "Torus Knot"@,
            self is InfinitePillars ==> r@ == "Infinite Pillars"@,
            self is TwistedBox ==> r@ == "Twisted Box"@,
            self is LoadedAsdf ==> r@ == "Loaded .asdf"@,
    {
        match self {
            SdfScene::CarvedSphere => "Carved Sphere",
            SdfScene::Sphere => "Simple Sphere",
            SdfScene::RoundedBox => "Rounded Box",
            SdfScene::TorusKnot => "Torus Knot",
            SdfScene::InfinitePillars => "Infinite Pillars",
            SdfScene::TwistedBox => "Twisted Box",
            SdfScene::LoadedAsdf => "Loaded .asdf",
        }
    }

    /// The demo scenes, in panel order (the loaded scene is not a demo).
    pub fn all_demo() -> (r: Vec<SdfScene>)
        ensures
            r@ == seq![
                SdfScene::CarvedSphere,
                SdfScene::Sphere,
                SdfScene::RoundedBox,
                SdfScene::TorusKnot,
                SdfScene::InfinitePillars,
                SdfScene::TwistedBox,
            ],
    {
        let mut v: Vec<SdfScene> = Vec::new();
        v.push(SdfScene::CarvedSphere);
        v.push(SdfScene::Sphere);
        v.push(SdfScene::RoundedBox);
        v.push(SdfScene::TorusKnot);
        v.push(SdfScene::InfinitePillars);
        v.push(SdfScene::TwistedBox);
        proof {
            assert(v@ =~= seq![
                SdfScene::CarvedSphere,
                SdfScene::Sphere,
                SdfScene::RoundedBox,
                SdfScene::TorusKnot,
                SdfScene::InfinitePillars,
                SdfScene::TwistedBox,
            ]);
        }
        v
    }

    /// The numeric scene identifier the shader receives; the loaded
    /// scene has its own identifier apart from the demo range.
    pub open spec fn spec_id(self) -> u32 {
        match self {
            SdfScene::CarvedSphere => 0,
            SdfScene::Sphere => 1,
            SdfScene::RoundedBox => 2,
            SdfScene::TorusKnot => 3,
            SdfScene::InfinitePillars => 4,
            SdfScene::TwistedBox => 5,
            SdfScene::LoadedAsdf => 100,
        }
    }
}

/// State of the scene control panel.
pub struct SdfPanel {
    /// Currently selected scene.
    pub scene: SdfScene,
    /// Whether a scene loaded from a file is available.
    pub has_dynamic_sdf: bool,
    /// Description of the loaded scene, when one is available.
    pub loaded_asdf_info: Option<String>,
    /// Mesh-export resolution.
    pub export_resolution: u32,
    /// Pending export request, if the user asked for one.
    pub pending_export: Option<ExportFormat>,
}

impl SdfPanel {
    /// A fresh panel: default demo scene, no loaded scene, and the
    /// default export resolution.
    pub fn new() -> (r: SdfPanel)
        ensures
            r.scene is CarvedSphere,
            !r.has_dynamic_sdf,
            r.loaded_asdf_info is None,
            r.export_resolution == 64,
            r.pending_export is None,
    {
        SdfPanel {
            scene: SdfScene::CarvedSphere,
            has_dynamic_sdf: false,
            loaded_asdf_info: None,
            export_resolution: 64,
            pending_export: None,
        }
    }

    /// Record whether a loaded scene is available; when one becomes
    /// available it is selected immediately.
    pub fn set_dynamic_sdf(&mut self, available: bool, info: Option<String>)
        ensures
            final(self).has_dynamic_sdf == available,
            final(self).loaded_asdf_info == info,
            available ==> final(self).scene is LoadedAsdf,
            !available ==> final(self).scene == old(self).scene,
            final(self).export_resolution == old(self).export_resolution,
            final(self).pending_export == old(self).pending_export,
    {
        self.has_dynamic_sdf = available;
        self.loaded_asdf_info = info;
        if available {
            self.scene = SdfScene::LoadedAsdf;
        }
    }

    /// The scene identifier handed to the shader.
    pub fn scene_id(&self) -> (r: u32)
        ensures
            r == self.scene.spec_id(),
    {
        match self.scene {
            SdfScene::CarvedSphere => 0,
            SdfScene::Sphere => 1,
            SdfScene::RoundedBox => 2,
            SdfScene::TorusKnot => 3,
            SdfScene::InfinitePillars => 4,
            SdfScene::TwistedBox => 5,
            SdfScene::LoadedAsdf => 100,
        }
    }
}

impl Default for SdfPanel {
    /// Same as `new`.
    fn default() -> (r: SdfPanel)
        ensures
            r.scene is CarvedSphere,
            !r.has_dynamic_sdf,
            r.pending_export is None,
    {
        SdfPanel::new()
    }
}

} // verus!
