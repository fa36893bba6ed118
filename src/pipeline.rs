//! The order of the pipeline's stages, and the settings it runs with.
use vstd::prelude::*;

verus! {

/// How far a run goes.
#[derive(Clone, Copy, Debug, PartialEq, Eq, Structural)]
pub enum PipelineMode {
    EmbedOnly,
    EmbedAndStore,
    EmbedStoreAndQuery,
}

/// A stage of a run.
#[derive(Clone, Copy, Debug, PartialEq, Eq, Structural)]
pub enum Stage {
    Load,
    Embed,
    EnsureCollection,
    Upsert,
    Query,
    Done,
}

/// What a run needs to know: where the documents are, the collection and
/// store that receive them, the model that embeds them, how many hits a
/// query returns, and how far the run goes.
#[derive(Debug)]
pub struct PipelineConfig {
    pub input_path: String,
    pub collection_name: String,
    pub store_endpoint: String,
    pub model_id: String,
    pub top_k: u64,
    pub mode: PipelineMode,
}

/// The stages that a run in `mode` goes through, in order.
pub open spec fn stages_of(mode: PipelineMode) -> Seq<Stage> {
    match mode {
        PipelineMode::EmbedOnly => seq![Stage::Load, Stage::Embed, Stage::Done],
        PipelineMode::EmbedAndStore => seq![
            Stage::Load,
            Stage::Embed,
            Stage::EnsureCollection,
            Stage::Upsert,
            Stage::Done,
        ],
        PipelineMode::EmbedStoreAndQuery => seq![
            Stage::Load,
            Stage::Embed,
            Stage::EnsureCollection,
            Stage::Upsert,
            Stage::Query,
            Stage::Done,
        ],
    }
}

/// The stage that follows `stage` in a run in `mode`: the next one of
/// `stages_of(mode)`, and `Done` after `Done` or after a stage that the mode
/// does not have.
pub fn next_stage(mode: PipelineMode, stage: Stage) -> (r: Stage)
    ensures
        forall|i: int|
            0 <= i < stages_of(mode).len() - 1 && #[trigger] stages_of(mode)[i] == stage ==> r
                == stages_of(mode)[i + 1],
        !stages_of(mode).contains(stage) ==> r == Stage::Done,
        stage == Stage::Done ==> r == Stage::Done,
{
    let r = match stage {
        Stage::Load => Stage::Embed,
        Stage::Embed => match mode {
            PipelineMode::EmbedOnly => Stage::Done,
            _ => Stage::EnsureCollection,
        },
        Stage::EnsureCollection => match mode {
            PipelineMode::EmbedOnly => Stage::Done,
            _ => Stage::Upsert,
        },
        Stage::Upsert => match mode {
            PipelineMode::EmbedStoreAndQuery => Stage::Query,
            _ => Stage::Done,
        },
        Stage::Query => Stage::Done,
        Stage::Done => Stage::Done,
    };
    proof {
        let s = stages_of(mode);
        if !s.contains(stage) {
            if mode != PipelineMode::EmbedOnly {
                assert(s[0] == Stage::Load && s[1] == Stage::Embed && s[2] == Stage::EnsureCollection && s[3] == Stage::Upsert);
            }
            if mode == PipelineMode::EmbedStoreAndQuery {
                assert(s[4] == Stage::Query);
            }
            assert(s[0] == Stage::Load && s[1] == Stage::Embed);
        }
    }
    r
}

} // verus!
