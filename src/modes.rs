//! Interaction modes and small shared value types.
use vstd::prelude::*;

verus! {

/// What a click on an object does.
#[derive(Clone, Copy, Debug, PartialEq, Eq, Structural)]
pub enum ActionType {
    Select,
    Hide,
    Evaluate,
}

/// Whether the cursor is shown.
#[derive(Clone, Copy, Debug, PartialEq, Eq, Structural)]
pub enum WindowMode {
    CursorVisible,
    CursorInVisible,
}

/// How the camera is driven.
#[derive(Clone, Copy, Debug, PartialEq, Eq, Hash, Structural)]
pub enum CameraMode {
    FLY,
    ORBIT,
    TOUCH,
}

/// What a dimension measures.
#[derive(Clone, Copy, Debug, PartialEq, Eq, Structural)]
pub enum DimensionMode {
    Point,
    Line,
    Angle,
    NotSet,
}

/// Part types of the hull model.
#[derive(Clone, Copy, Debug, PartialEq, Eq, Structural)]
pub enum HullPartTypes {
    _ShellLongitudinal,
    Decklongitudinal,
    _Hullframe,
    Deckbeam,
    Stifflongbulkhead,
    Stifftransbulkhead,
    Generalprofile,
    _Foundationprofil,
    Internalplate,
    _Shellplate,
    Deckplate,
    Templateplate,
    _Foundationplate,
    Shellmarkingplate,
    Corrugatedplate,
    _InternalPlateFHull,
    _InternalProfileFHull,
    _InternalLCFHull,
    _InternalStandardPlateFHull,
    _InternalStraightProfileFHull,
    _InternalCollarPlateFHull,
    _InternalGridProfile,
    _InternalBracketFHull,
    _InternalMacroPlateFHull,
    _InternalCurvedProfileFHull,
    InternalCorrugatedStandardPlate,
    InternalCorrugatedMacroPlate,
    DevelopedShellorDeckPlate,
    ShellorDeckBendingTemplate,
    JigBasePart,
    Straightweb,
    Straightflange,
    Shapedweb,
    Shapedflange,
    Importedpart,
}

/// The arguments of one indexed indirect draw.
#[derive(Clone, Copy, Debug, PartialEq, Eq, Structural)]
pub struct MeshDrawIndexedIndirect {
    /// The number of vertices to draw.
    pub vertex_count: u32,
    /// The number of instances to draw.
    pub instance_count: u32,
    /// The base index within the index buffer.
    pub base_index: u32,
    /// The value added to the vertex index before indexing into the vertex buffer.
    pub vertex_offset: u32,
    /// The instance id of the first instance to draw.
    pub base_instance: u32,
}

/// The bytes of a font.
pub struct FontSource {
    pub font_bytes: Vec<u8>,
}

impl FontSource {
    pub fn new(bytes: &[u8]) -> (r: FontSource)
        ensures
            r.font_bytes@ == bytes@,
    {
        let mut v: Vec<u8> = Vec::new();
        let mut k: usize = 0;
        while k < bytes.len()
            invariant
                k <= bytes@.len(),
                v@ == bytes@.subrange(0, k as int),
            decreases bytes@.len() - k,
        {
            v.push(bytes[k]);
            k = k + 1;
        }
        assert(v@ =~= bytes@);
        FontSource { font_bytes: v }
    }
}

} // verus!
