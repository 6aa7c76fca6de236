//! Plugins that ship with the library.
use vstd::prelude::*;

verus! {

/// The plugin that recomputes every vertex normal as the average of the
/// normals of the faces round it.
#[derive(Debug, Clone)]
pub struct SmoothNormalsPlugin {
    pub name: String,
    pub description: String,
}

impl SmoothNormalsPlugin {
    /// The name under which the plugin registers.
    pub open spec fn name_spec() -> Seq<char> {
        "smooth_normals"@
    }

    /// What the plugin does, in words.
    pub open spec fn description_spec() -> Seq<char> {
        "Smooths vertex normals by averaging face normals"@
    }

    /// The plugin, with its fixed name and description.
    pub fn new() -> (r: SmoothNormalsPlugin)
        ensures
            r.name@ == Self::name_spec(),
            r.description@ == Self::description_spec(),
    {
        SmoothNormalsPlugin {
            name: "smooth_normals".to_owned(),
            description: "Smooths vertex normals by averaging face normals".to_owned(),
        }
    }

    /// The plugin's name.
    pub fn name(&self) -> (r: &str)
        ensures
            r@ == self.name@,
    {
        self.name.as_str()
    }

    /// The plugin's description.
    pub fn description(&self) -> (r: &str)
        ensures
            r@ == self.description@,
    {
        self.description.as_str()
    }
}

impl Default for SmoothNormalsPlugin {
    fn default() -> (r: SmoothNormalsPlugin)
        ensures
            r.name@ == Self::name_spec(),
            r.description@ == Self::description_spec(),
    {
        SmoothNormalsPlugin::new()
    }
}

} // verus!
