//! Scene description types and the small rules that tie the scene file,
//! the ECS components and the editor together.
use vstd::prelude::*;

verus! {

broadcast use vstd::string::to_string_from_display_ensures_for_str;

/// References a GPU mesh and a material descriptor set, both by index.
#[derive(Debug, Clone, Copy, PartialEq, Eq, Structural)]
pub struct MeshRenderer {
    pub mesh_index: usize,
    pub material_set_index: usize,
}

/// Marker: the entity that holds the camera is the active camera.
#[derive(Debug, Clone, Copy, PartialEq, Eq, Structural)]
pub struct ActiveCamera;

/// Rigid-body kind of a physics entity.
#[derive(Debug, Clone, Copy, PartialEq, Eq, Structural)]
pub enum PhysicsBodyType {
    Dynamic,
    Static,
    Kinematic,
}

/// Collider shape of a physics entity.
#[derive(Debug, Clone, Copy, PartialEq, Eq, Structural)]
pub enum ColliderShapeType {
    Box,
}

/// Gizmo manipulation mode.
#[derive(Debug, Clone, Copy, PartialEq, Eq, Structural)]
pub enum GizmoMode {
    Translate,
    Rotate,
    Scale,
}

/// Gizmo axis.
#[derive(Debug, Clone, Copy, PartialEq, Eq, Structural)]
pub enum GizmoAxis {
    X,
    Y,
    Z,
}

/// Physics behaviour of a catalog prop.
#[derive(Debug, Clone, Copy, PartialEq, Eq, Structural)]
pub enum PropPhysics {
    Dynamic,
    Static,
    /// No physics body (spelled `none` in the catalog).
    NoPhysics,
}

impl Default for PropPhysics {
    /// Props are static unless the catalog says otherwise.
    fn default() -> (r: Self)
        ensures
            r == PropPhysics::Static,
    {
        PropPhysics::Static
    }
}

/// Physics body type as stored in a scene file.
#[derive(Debug, Clone)]
pub struct RigidBodyDef {
    /// `"dynamic"`, `"static"` or `"kinematic"`.
    pub body_type: String,
}

/// Which assets a scene uses.
#[derive(Debug, Clone)]
pub struct SceneConfig {
    pub skybox: String,
    pub terrain: String,
    pub character: String,
    pub props_catalog: String,
}

impl Default for SceneConfig {
    /// A configuration naming no asset.
    fn default() -> (c: Self)
        ensures
            c.skybox@.len() == 0,
            c.terrain@.len() == 0,
            c.character@.len() == 0,
            c.props_catalog@.len() == 0,
    {
        SceneConfig {
            skybox: String::new(),
            terrain: String::new(),
            character: String::new(),
            props_catalog: String::new(),
        }
    }
}

/// Collider name used when the catalog gives none.
pub fn default_collider() -> (s: String)
    ensures
        s@ == "box"@,
{
    "box".to_string()
}

/// Category used when the catalog gives none.
pub fn default_category() -> (s: String)
    ensures
        s@ == "objetos"@,
{
    "objetos".to_string()
}

/// The name a body type is saved under.
pub open spec fn spec_body_type_name(t: PhysicsBodyType) -> Seq<char> {
    match t {
        PhysicsBodyType::Dynamic => "dynamic"@,
        PhysicsBodyType::Static => "static"@,
        PhysicsBodyType::Kinematic => "kinematic"@,
    }
}

/// The body type a loaded entity gets: static when the file says
/// `"static"`, dynamic for anything else.
pub open spec fn spec_body_type_of(name: Seq<char>) -> PhysicsBodyType {
    if name == "static"@ {
        PhysicsBodyType::Static
    } else {
        PhysicsBodyType::Dynamic
    }
}

impl RigidBodyDef {
    /// The scene-file record of a physics body.
    pub fn from_body_type(t: PhysicsBodyType) -> (d: Self)
        ensures
            d.body_type@ == spec_body_type_name(t),
    {
        let body_type = match t {
            PhysicsBodyType::Dynamic => "dynamic".to_string(),
            PhysicsBodyType::Static => "static".to_string(),
            PhysicsBodyType::Kinematic => "kinematic".to_string(),
        };
        RigidBodyDef { body_type }
    }

    /// The body type a loaded entity with this record gets.
    pub fn body_type(&self) -> (t: PhysicsBodyType)
        ensures
            t == spec_body_type_of(self.body_type@),
    {
        let s = "static".to_string();
        if self.body_type == s {
            PhysicsBodyType::Static
        } else {
            PhysicsBodyType::Dynamic
        }
    }
}

/// Saving and loading a physics body keeps its type, for dynamic and static
/// bodies.  (A kinematic body is saved as `"kinematic"` and loaded back as
/// dynamic.)
pub proof fn lemma_body_type_round_trip(t: PhysicsBodyType)
    requires
        t != PhysicsBodyType::Kinematic,
    ensures
        spec_body_type_of(spec_body_type_name(t)) == t,
{
    reveal_strlit("dynamic");
    reveal_strlit("static");
    assert("dynamic"@.len() != "static"@.len());
}

/// The editor's numeric encoding of a gizmo mode.
pub open spec fn spec_gizmo_code(m: GizmoMode) -> u8 {
    match m {
        GizmoMode::Translate => 0,
        GizmoMode::Rotate => 1,
        GizmoMode::Scale => 2,
    }
}

impl GizmoMode {
    /// Decode the editor panel's mode: 1 = rotate, 2 = scale, anything else
    /// = translate.
    pub fn from_editor_code(code: u8) -> (m: Self)
        ensures
            m == if code == 1 {
                GizmoMode::Rotate
            } else if code == 2 {
                GizmoMode::Scale
            } else {
                GizmoMode::Translate
            },
    {
        match code {
            1 => GizmoMode::Rotate,
            2 => GizmoMode::Scale,
            _ => GizmoMode::Translate,
        }
    }

    /// Encode a mode for the editor panel: translate 0, rotate 1, scale 2.
    pub fn editor_code(self) -> (c: u8)
        ensures
            c == spec_gizmo_code(self),
    {
        match self {
            GizmoMode::Translate => 0,
            GizmoMode::Rotate => 1,
            GizmoMode::Scale => 2,
        }
    }
}

/// The editor's mode code and the gizmo mode stay in sync: encoding a mode
/// and decoding it again gives the same mode.
pub proof fn lemma_gizmo_code_round_trip(m: GizmoMode)
    ensures
        (if spec_gizmo_code(m) == 1 {
            GizmoMode::Rotate
        } else if spec_gizmo_code(m) == 2 {
            GizmoMode::Scale
        } else {
            GizmoMode::Translate
        }) == m,
{
}

impl GizmoAxis {
    /// Component index of the axis: X 0, Y 1, Z 2.
    pub fn index(self) -> (i: usize)
        ensures
            i == match self {
                GizmoAxis::X => 0usize,
                GizmoAxis::Y => 1usize,
                GizmoAxis::Z => 2usize,
            },
    {
        match self {
            GizmoAxis::X => 0,
            GizmoAxis::Y => 1,
            GizmoAxis::Z => 2,
        }
    }
}

/// Clamp a scene entity's mesh and material indices into what is loaded:
/// the mesh index to the last mesh (0 when there is none) and the material
/// index to the default material set, which follows the `mat_count` loaded
/// ones.
pub fn clamp_entity_indices(
    mesh_index: usize,
    material_set_index: usize,
    mesh_count: usize,
    mat_count: usize,
) -> (r: (usize, usize))
    ensures
        r.0 == if mesh_count == 0 {
            0
        } else if mesh_index < mesh_count - 1 {
            mesh_index as int
        } else {
            mesh_count - 1
        },
        r.1 == if material_set_index < mat_count {
            material_set_index
        } else {
            mat_count
        },
{
    let last = if mesh_count == 0 {
        0
    } else {
        mesh_count - 1
    };
    let mesh_idx = if mesh_index < last {
        mesh_index
    } else {
        last
    };
    let mat_idx = if material_set_index < mat_count {
        material_set_index
    } else {
        mat_count
    };
    (mesh_idx, mat_idx)
}

} // verus!
