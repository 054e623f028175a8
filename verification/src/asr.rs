//! Which on-device speech engine a model runs on.
use vstd::prelude::*;
use crate::models::ModelInfo;

verus! {

/// The engine that runs a speech model.
#[derive(PartialEq, Eq, Structural, Clone, Copy, Debug)]
pub enum EngineKind {
    /// A single ggml file for whisper.cpp.
    Whisper,
    /// A Moonshine bundle for sherpa-onnx (fast English captions).
    Moonshine,
    /// A Parakeet transducer bundle for sherpa-onnx.
    Parakeet,
}

/// The engine for model `info` selected as `model_id`: whisper for single-file models;
/// of the bundles, Parakeet for ids that start with `parakeet`, Moonshine for the rest.
pub open spec fn engine_kind_spec(files: Seq<Seq<char>>, model_id: Seq<char>) -> EngineKind {
    if files.len() == 0 {
        EngineKind::Whisper
    } else if model_id.len() >= 8 && model_id.take(8) == "parakeet"@ {
        EngineKind::Parakeet
    } else {
        EngineKind::Moonshine
    }
}

/// The engine for a model.
pub fn engine_kind(info: &ModelInfo, model_id: &str) -> (r: EngineKind)
    ensures
        r == engine_kind_spec(info@.files, model_id@),
{
    assert(info@.files.len() == info.files@.len());
    if info.files.len() == 0 {
        return EngineKind::Whisper;
    }
    let cs = crate::text::chars_of(model_id);
    let p: [char; 8] = ['p', 'a', 'r', 'a', 'k', 'e', 'e', 't'];
    proof {
        reveal_strlit("parakeet");
        assert(p@ =~= "parakeet"@);
    }
    if cs.len() < 8 {
        return EngineKind::Moonshine;
    }
    let mut i: usize = 0;
    while i < 8
        invariant
            i <= 8 <= cs@.len(),
            info@.files.len() > 0,
            cs@ == model_id@,
            p@ == "parakeet"@,
            forall|j: int| 0 <= j < i ==> cs@[j] == p@[j],
        decreases 8 - i,
    {
        if cs[i] != p[i] {
            assert(model_id@.take(8)[i as int] != "parakeet"@[i as int]);
            return EngineKind::Moonshine;
        }
        i = i + 1;
    }
    assert(model_id@.take(8) =~= "parakeet"@);
    EngineKind::Parakeet
}

} // verus!
