use vstd::prelude::*;

use crate::bitmap_field::BitmapField;
use crate::bot::bot_player::{lemma_moves, moves_run, MovementDescriptor};
use crate::bot::compute_types::{ComputedDropConfig, MoveResultScore, UpcomingShapes};
use crate::bot::search::{config_chain, configs_linked, make_drop_configs_cpu, drop_configs};
use crate::bot::{evaluate_moves_cpu, field_bits, score_of, BotContext, BotResults};
use crate::consts::MAX_SEARCH_DEPTH;
use crate::game_state::{GameModel, GameState};
use crate::shapes::Shape;

verus! {

/// The search run on the processor.
pub struct CpuBotContext;

/// The results of a search run on the processor.
pub struct CpuBotResults {
    configs: Vec<ComputedDropConfig>,
    scores: Vec<MoveResultScore>,
    fields: Vec<BitmapField>,
}

impl BotResults for CpuBotResults {
    closed spec fn spec_configs(&self) -> Seq<ComputedDropConfig> {
        self.configs@
    }

    closed spec fn spec_scores(&self) -> Seq<MoveResultScore> {
        self.scores@
    }

    closed spec fn spec_fields(&self) -> Seq<BitmapField> {
        self.fields@
    }

    fn configs(&self) -> (res: &[ComputedDropConfig]) {
        self.configs.as_slice()
    }

    fn scores(&self) -> (res: &[MoveResultScore]) {
        self.scores.as_slice()
    }

    fn fields(&self) -> (res: &[BitmapField]) {
        self.fields.as_slice()
    }
}

/// The placements leading to the field of placement `i`, as moves.
pub open spec fn chain_moves(configs: Seq<ComputedDropConfig>, i: int) -> Seq<MovementDescriptor> {
    config_chain(configs, i).map_values(|c: ComputedDropConfig| MovementDescriptor::of_config(c))
}

/// The field and score every placement reaches from `initial`.
pub open spec fn evaluated(
    initial: GameModel,
    configs: Seq<ComputedDropConfig>,
    fields: Seq<BitmapField>,
    scores: Seq<MoveResultScore>,
) -> bool {
    &&& fields.len() == configs.len() + 1
    &&& scores.len() == configs.len()
    &&& fields[0].bits() == field_bits(initial.field)
    &&& forall|i: int|
        0 <= i < configs.len() ==> {
            let (m, rs) = moves_run(initial, #[trigger] chain_moves(configs, i));
            &&& fields[i + 1].bits() == field_bits(m.field)
            &&& scores[i] == score_of(rs, field_bits(m.field))
        }
}

proof fn lemma_chain_members(configs: Seq<ComputedDropConfig>, i: int)
    requires
        configs_linked(configs),
    ensures
        forall|k: int|
            0 <= k < config_chain(configs, i).len() ==> (#[trigger] config_chain(configs, i)[k]).shape_idx
                < 7 && config_chain(configs, i)[k].cw_rotations < 4,
    decreases i,
{
    if 0 <= i < configs.len() {
        let src = configs[i].src_field_idx as int;
        let c = configs[i];
        assert(c.shape_idx < 7 && c.cw_rotations < 4);
        if src != 0 && src - 1 < i {
            lemma_chain_members(configs, src - 1);
            let prev = config_chain(configs, src - 1);
            assert(config_chain(configs, i) == prev.push(c));
            assert forall|k: int| 0 <= k < config_chain(configs, i).len() implies (#[trigger] config_chain(
                configs,
                i,
            )[k]).shape_idx < 7 && config_chain(configs, i)[k].cw_rotations < 4 by {
                if k < prev.len() {
                    assert(config_chain(configs, i)[k] == prev[k]);
                }
            }
        } else {
            assert(config_chain(configs, i) == seq![c]);
        }
    }
}

/// Evaluates every placement from `initial_state`: field 0 is the initial field, field `i + 1`
/// and score `i` belong to placement `i`.
fn eval_configs(initial_state: &GameState, configs: &[ComputedDropConfig]) -> (res: (
    Vec<BitmapField>,
    Vec<MoveResultScore>,
))
    requires
        initial_state.wf(),
        configs_linked(configs@),
        forall|i: int|
            0 <= i < configs@.len() ==> #[trigger] config_chain(configs@, i).len()
                <= initial_state@.upcoming.len() && config_chain(configs@, i).len() <= 10,
    ensures
        evaluated(initial_state@, configs@, res.0@, res.1@),
{
    let mut fields: Vec<BitmapField> = Vec::new();
    fields.push(initial_state.make_bitmap_field());
    proof {
        crate::bot::lemma_bits_of_field(fields@[0], initial_state@.field);
    }
    let mut scores: Vec<MoveResultScore> = Vec::new();
    let mut n: usize = 0;
    while n < configs.len()
        invariant
            n <= configs@.len(),
            initial_state.wf(),
            configs_linked(configs@),
            forall|i: int|
                0 <= i < configs@.len() ==> #[trigger] config_chain(configs@, i).len()
                    <= initial_state@.upcoming.len() && config_chain(configs@, i).len() <= 10,
            fields@.len() == n + 1,
            scores@.len() == n,
            fields@[0].bits() == field_bits(initial_state@.field),
            forall|i: int|
                0 <= i < n ==> {
                    let (m, rs) = moves_run(initial_state@, #[trigger] chain_moves(configs@, i));
                    &&& fields@[i + 1].bits() == field_bits(m.field)
                    &&& scores@[i] == score_of(rs, field_bits(m.field))
                },
        decreases configs@.len() - n,
    {
        let mut cur_idx = n;
        let mut moves: Vec<MovementDescriptor> = Vec::new();
        let ghost tail: Seq<ComputedDropConfig> = Seq::empty();
        loop
            invariant_except_break
                config_chain(configs@, n as int) == config_chain(configs@, cur_idx as int) + tail,
                moves@ == tail.map_values(|c: ComputedDropConfig| MovementDescriptor::of_config(c)),
            invariant
                configs_linked(configs@),
                cur_idx < configs@.len(),
                n < configs@.len(),
            ensures
                moves@ == chain_moves(configs@, n as int),
            decreases cur_idx,
        {
            let cfg = configs[cur_idx];
            assert(configs@[cur_idx as int] == cfg);
            moves.insert(0, MovementDescriptor::from_drop_config(&cfg));
            proof {
                tail = seq![cfg] + tail;
                assert(moves@ =~= tail.map_values(|c: ComputedDropConfig| MovementDescriptor::of_config(c)));
            }
            if cfg.src_field_idx == 0 {
                assert(config_chain(configs@, cur_idx as int) == seq![cfg]);
                assert(config_chain(configs@, n as int) =~= tail);
                break ;
            }
            assert(config_chain(configs@, cur_idx as int) == config_chain(
                configs@,
                cfg.src_field_idx as int - 1,
            ).push(cfg));
            assert(config_chain(configs@, n as int) =~= config_chain(
                configs@,
                cfg.src_field_idx as int - 1,
            ) + tail);
            cur_idx = cfg.src_field_idx as usize - 1;
        }
        proof {
            let chain = config_chain(configs@, n as int);
            lemma_chain_members(configs@, n as int);
            assert forall|k: int| 0 <= k < moves@.len() implies (#[trigger] moves@[k]).valid() by {
                assert(moves@[k] == MovementDescriptor::of_config(chain[k]));
            }
            assert(chain.len() <= 10);
            lemma_moves(initial_state@, moves@);
        }
        let (_, score, field) = evaluate_moves_cpu(initial_state, moves.as_slice());
        scores.push(score);
        fields.push(field);
        n = n + 1;
    }
    (fields, scores)
}

impl BotContext for CpuBotContext {
    type ResultType = CpuBotResults;

    fn compute_drop_search(
        &self,
        search_depth: usize,
        upcoming_shapes: &UpcomingShapes,
        source_state: &GameState,
    ) -> (res: Result<CpuBotResults, anyhow::Error>)
        ensures
            res matches Ok(r) && r.spec_configs() == drop_configs(upcoming_shapes@.take(search_depth as int))
                && evaluated(source_state@, r.spec_configs(), r.spec_fields(), r.spec_scores()),
    {
        let mut shapes: Vec<Shape> = Vec::new();
        let mut i: usize = 0;
        while i < search_depth
            invariant
                i <= search_depth <= MAX_SEARCH_DEPTH,
                upcoming_shapes@.len() == 7,
                shapes@ == upcoming_shapes@.take(i as int),
            decreases search_depth - i,
        {
            shapes.push(upcoming_shapes[i]);
            assert(shapes@ =~= upcoming_shapes@.take(i + 1));
            i = i + 1;
        }
        proof {
            crate::bot::search::lemma_outputs_max_depth();
            crate::bot::search::lemma_outputs_monotonic(search_depth as nat, 6);
        }
        let configs = make_drop_configs_cpu(shapes.as_slice());
        proof {
            crate::bot::search::lemma_drop_configs_linked(shapes@);
            assert forall|i: int| 0 <= i < configs@.len() implies #[trigger] config_chain(configs@, i).len()
                <= source_state@.upcoming.len() && config_chain(configs@, i).len() <= 10 by {
                let (d, j) = crate::bot::search::lemma_level_of(shapes@.len(), i);
                crate::bot::search::lemma_drop_configs_chain(shapes@, d, j);
            }
        }
        let (fields, scores) = eval_configs(source_state, configs.as_slice());
        Ok(CpuBotResults { configs, fields, scores })
    }
}

} // verus!
