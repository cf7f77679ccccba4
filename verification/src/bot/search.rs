use vstd::prelude::*;

use crate::bot::bot_start_positions::{shape_index, shape_to_idx};
use crate::bot::compute_types::ComputedDropConfig;
use crate::consts::OUTPUTS_PER_INPUT_FIELD;
use crate::shapes::Shape;

verus! {

/// `OUTPUTS_PER_INPUT_FIELD` to the power `n`: the number of placements at search depth `n - 1`.
pub open spec fn pow40(n: nat) -> nat
    decreases n,
{
    if n == 0 {
        1
    } else {
        (OUTPUTS_PER_INPUT_FIELD * pow40((n - 1) as nat)) as nat
    }
}

/// The number of placements a search of depth `d` evaluates: 40 + 40^2 + ... + 40^d.
pub open spec fn outputs_up_to(d: nat) -> nat
    decreases d,
{
    if d == 0 {
        0
    } else {
        outputs_up_to((d - 1) as nat) + pow40(d)
    }
}

pub proof fn lemma_pow40_monotonic(a: nat, b: nat)
    requires
        a <= b,
    ensures
        1 <= pow40(a) <= pow40(b),
    decreases b,
{
    if b > 0 && a < b {
        lemma_pow40_monotonic(a, (b - 1) as nat);
    } else if b > 0 {
        lemma_pow40_monotonic((b - 1) as nat, (b - 1) as nat);
    }
}

pub proof fn lemma_outputs_monotonic(a: nat, b: nat)
    requires
        a <= b,
    ensures
        outputs_up_to(a) <= outputs_up_to(b),
        b > 0 ==> pow40(b) <= outputs_up_to(b),
        pow40(a) <= pow40(b),
        pow40(a) >= 1,
    decreases b,
{
    lemma_pow40_monotonic(a, b);
    if b > 0 && a < b {
        lemma_outputs_monotonic(a, (b - 1) as nat);
    }
}

pub proof fn lemma_outputs_at_least(d: nat)
    ensures
        outputs_up_to(d) >= d,
    decreases d,
{
    if d > 0 {
        lemma_outputs_at_least((d - 1) as nat);
        lemma_pow40_monotonic(0, d);
    }
}

/// The search of the deepest supported depth fits `u32` indices.
pub proof fn lemma_outputs_max_depth()
    ensures
        outputs_up_to(6) == 4201025640,
        outputs_up_to(7) == 168041025640,
{
    reveal_with_fuel(outputs_up_to, 8);
    reveal_with_fuel(pow40, 8);
}

/// The index of the first source field of depth `d`: the initial field for depth 0, the first
/// field produced by depth `d - 1` otherwise.
pub open spec fn level_start(d: nat) -> int {
    if d == 0 {
        0
    } else {
        outputs_up_to((d - 1) as nat) + 1int
    }
}

/// Placement `j` of depth `d`: every source field of the depth, in order, gets every rotation
/// (0 to 3) and every shift (4 left to 5 right).
pub open spec fn level_config(shapes: Seq<Shape>, d: nat, j: int) -> ComputedDropConfig {
    let shifts = j % 10;
    ComputedDropConfig {
        shape_idx: shape_index(shapes[d as int]),
        cw_rotations: ((j % 40) / 10) as u8,
        left_shifts: (if shifts < 4 { 4 - shifts } else { 0 }) as u8,
        right_shifts: (if shifts > 4 { shifts - 4 } else { 0 }) as u8,
        src_field_idx: (level_start(d) + j / 40) as u32,
        dest_field_idx: (outputs_up_to(d) + j + 1) as u32,
    }
}

/// All placements of a search over `shapes`, depth after depth.
pub open spec fn drop_configs(shapes: Seq<Shape>) -> Seq<ComputedDropConfig>
    decreases shapes.len(),
{
    if shapes.len() == 0 {
        Seq::empty()
    } else {
        let d = (shapes.len() - 1) as nat;
        drop_configs(shapes.drop_last()) + Seq::new(pow40(d + 1), |j: int| level_config(shapes, d, j))
    }
}

/// Each placement produces the field with index one past its own, from an earlier field.
pub open spec fn configs_linked(configs: Seq<ComputedDropConfig>) -> bool {
    forall|i: int|
        0 <= i < configs.len() ==> (#[trigger] configs[i]).dest_field_idx == i + 1
            && configs[i].src_field_idx <= i && configs[i].shape_idx < 7 && configs[i].cw_rotations
            < 4
}

/// The placements leading from the initial field to the field produced by placement `i`,
/// first placement first.
pub open spec fn config_chain(configs: Seq<ComputedDropConfig>, i: int) -> Seq<ComputedDropConfig>
    decreases i,
{
    if i < 0 || i >= configs.len() {
        Seq::empty()
    } else {
        let src = configs[i].src_field_idx as int;
        if src == 0 || src - 1 >= i {
            seq![configs[i]]
        } else {
            config_chain(configs, src - 1).push(configs[i])
        }
    }
}

proof fn lemma_level_position(k: int, cw: int, sh: int)
    requires
        0 <= k,
        0 <= cw < 4,
        0 <= sh < 10,
    ensures
        (k * 40 + cw * 10 + sh) / 40 == k,
        ((k * 40 + cw * 10 + sh) % 40) / 10 == cw,
        (k * 40 + cw * 10 + sh) % 10 == sh,
{
    assert((k * 40 + cw * 10 + sh) / 40 == k) by (nonlinear_arith)
        requires
            0 <= k,
            0 <= cw < 4,
            0 <= sh < 10,
    ;
    assert((k * 40 + cw * 10 + sh) % 40 == cw * 10 + sh) by (nonlinear_arith)
        requires
            0 <= k,
            0 <= cw < 4,
            0 <= sh < 10,
    ;
    assert((k * 40 + cw * 10 + sh) % 10 == sh) by (nonlinear_arith)
        requires
            0 <= k,
            0 <= cw < 4,
            0 <= sh < 10,
    ;
}

/// Every placement of a search over `shapes`, depth by depth: for each field produced by the
/// previous depth (the initial field for the first), each rotation and each shift.
pub fn make_drop_configs_cpu(shapes: &[Shape]) -> (res: Vec<ComputedDropConfig>)
    requires
        outputs_up_to(shapes@.len()) < u32::MAX,
    ensures
        res@ == drop_configs(shapes@),
        res@.len() == outputs_up_to(shapes@.len()),
{
    let mut res: Vec<ComputedDropConfig> = Vec::new();
    let mut prev_start: u32 = 0;
    let mut prev_end: u32 = 1;
    let mut d: usize = 0;
    while d < shapes.len()
        invariant
            d <= shapes@.len(),
            outputs_up_to(shapes@.len()) < u32::MAX,
            res@ == drop_configs(shapes@.take(d as int)),
            res@.len() == outputs_up_to(d as nat),
            prev_start == level_start(d as nat),
            prev_end == outputs_up_to(d as nat) + 1,
            prev_end - prev_start == pow40(d as nat),
        decreases shapes@.len() - d,
    {
        proof {
            lemma_outputs_monotonic((d + 1) as nat, shapes@.len());
            lemma_outputs_monotonic(d as nat, (d + 1) as nat);
        }
        let shape_idx = shape_to_idx(shapes[d]);
        let ghost base = res@;
        let ghost level = Seq::new(pow40((d + 1) as nat), |j: int| level_config(shapes@, d as nat, j));
        let cur_start = res.len() as u32 + 1;
        let mut src_field_idx: u32 = prev_start;
        while src_field_idx < prev_end
            invariant
                prev_start <= src_field_idx <= prev_end,
                prev_end - prev_start == pow40(d as nat),
                prev_start == level_start(d as nat),
                prev_end == outputs_up_to(d as nat) + 1,
                d < shapes@.len(),
                base.len() == outputs_up_to(d as nat),
                outputs_up_to((d + 1) as nat) < u32::MAX,
                shape_idx == shape_index(shapes@[d as int]),
                res@ == base + level.take((src_field_idx - prev_start) * 40),
                level == Seq::new(pow40((d + 1) as nat), |j: int| level_config(shapes@, d as nat, j)),
            decreases prev_end - src_field_idx,
        {
            let mut cw_rotations: u8 = 0;
            while cw_rotations < 4
                invariant
                    prev_start <= src_field_idx < prev_end,
                    prev_end - prev_start == pow40(d as nat),
                    prev_start == level_start(d as nat),
                    prev_end == outputs_up_to(d as nat) + 1,
                    d < shapes@.len(),
                    base.len() == outputs_up_to(d as nat),
                    outputs_up_to((d + 1) as nat) < u32::MAX,
                    shape_idx == shape_index(shapes@[d as int]),
                    cw_rotations <= 4,
                    res@ == base + level.take((src_field_idx - prev_start) * 40 + cw_rotations * 10),
                    level == Seq::new(pow40((d + 1) as nat), |j: int| level_config(shapes@, d as nat, j)),
                decreases 4 - cw_rotations,
            {
                let mut shifts: i32 = 0;
                while shifts < 10
                    invariant
                        prev_start <= src_field_idx < prev_end,
                        prev_end - prev_start == pow40(d as nat),
                        prev_start == level_start(d as nat),
                        prev_end == outputs_up_to(d as nat) + 1,
                        d < shapes@.len(),
                        base.len() == outputs_up_to(d as nat),
                        outputs_up_to((d + 1) as nat) < u32::MAX,
                        shape_idx == shape_index(shapes@[d as int]),
                        cw_rotations < 4,
                        0 <= shifts <= 10,
                        res@ == base + level.take(
                            (src_field_idx - prev_start) * 40 + cw_rotations * 10 + shifts,
                        ),
                        level == Seq::new(pow40((d + 1) as nat), |j: int| level_config(shapes@, d as nat, j)),
                    decreases 10 - shifts,
                {
                    let ghost j: int = (src_field_idx - prev_start) * 40 + cw_rotations * 10 + shifts;
                    proof {
                        lemma_level_position((src_field_idx - prev_start) as int, cw_rotations as int, shifts as int);
                        assert(j < pow40((d + 1) as nat)) by (nonlinear_arith)
                            requires
                                j == (src_field_idx - prev_start) * 40 + cw_rotations * 10 + shifts,
                                src_field_idx - prev_start + 1 <= pow40(d as nat),
                                pow40((d + 1) as nat) == 40 * pow40(d as nat),
                                cw_rotations < 4,
                                shifts < 10,
                        ;
                    }
                    let left_shifts: u8 = if 4 - shifts > 0 { (4 - shifts) as u8 } else { 0 };
                    let right_shifts: u8 = if shifts - 4 > 0 { (shifts - 4) as u8 } else { 0 };
                    let dest_field_idx = (res.len() + 1) as u32;
                    let cfg = ComputedDropConfig {
                        shape_idx,
                        cw_rotations,
                        left_shifts,
                        right_shifts,
                        src_field_idx,
                        dest_field_idx,
                    };
                    assert(cfg == level[j]);
                    res.push(cfg);
                    assert(level.take(j + 1) =~= level.take(j).push(level[j]));
                    shifts = shifts + 1;
                }
                cw_rotations = cw_rotations + 1;
            }
            src_field_idx = src_field_idx + 1;
        }
        assert(shapes@.take(d + 1).drop_last() =~= shapes@.take(d as int));
        assert((prev_end - prev_start) * 40 == pow40((d + 1) as nat));
        assert(level.take(pow40((d + 1) as nat) as int) =~= level);
        assert(res@ =~= drop_configs(shapes@.take(d + 1))) by {
            assert(level =~= Seq::new(pow40((d + 1) as nat), |j: int| level_config(shapes@.take(d + 1), d as nat, j)));
        }
        prev_start = cur_start;
        prev_end = res.len() as u32 + 1;
        d = d + 1;
    }
    assert(shapes@.take(shapes@.len() as int) =~= shapes@);
    res
}

pub proof fn lemma_drop_configs_len(shapes: Seq<Shape>)
    ensures
        drop_configs(shapes).len() == outputs_up_to(shapes.len()),
    decreases shapes.len(),
{
    if shapes.len() > 0 {
        lemma_drop_configs_len(shapes.drop_last());
    }
}

/// Placement `j` of depth `d` stands at index `outputs_up_to(d) + j`.
pub proof fn lemma_drop_configs_index(shapes: Seq<Shape>, d: nat, j: int)
    requires
        d < shapes.len(),
        0 <= j < pow40(d + 1),
    ensures
        drop_configs(shapes)[outputs_up_to(d) + j] == level_config(shapes, d, j),
    decreases shapes.len(),
{
    let n = (shapes.len() - 1) as nat;
    lemma_drop_configs_len(shapes.drop_last());
    if d < n {
        lemma_drop_configs_index(shapes.drop_last(), d, j);
        lemma_outputs_monotonic(d + 1, n);
        assert(level_config(shapes.drop_last(), d, j) == level_config(shapes, d, j));
    }
}

/// A placement of depth `d` comes from a field produced at depth `d - 1`.
proof fn lemma_level_source(d: nat, j: int)
    requires
        d > 0,
        0 <= j < pow40(d + 1),
    ensures
        outputs_up_to((d - 1) as nat) <= level_start(d) + j / 40 - 1 < outputs_up_to(d),
        (level_start(d) + j / 40 - 1) - outputs_up_to((d - 1) as nat) < pow40(d),
{
    assert(j / 40 < pow40(d)) by (nonlinear_arith)
        requires
            0 <= j < pow40(d + 1),
            pow40(d + 1) == 40 * pow40(d),
    ;
}

/// The placements of a search over `shapes` are linked: each produces the field one past its
/// index, from an earlier field, with a known shape and rotation.
pub proof fn lemma_drop_configs_linked(shapes: Seq<Shape>)
    requires
        outputs_up_to(shapes.len()) < u32::MAX,
    ensures
        configs_linked(drop_configs(shapes)),
{
    let configs = drop_configs(shapes);
    lemma_drop_configs_len(shapes);
    assert forall|i: int| 0 <= i < configs.len() implies (#[trigger] configs[i]).dest_field_idx == i
        + 1 && configs[i].src_field_idx <= i && configs[i].shape_idx < 7 && configs[i].cw_rotations
        < 4 by {
        let (d, j) = lemma_level_of(shapes.len(), i);
        lemma_drop_configs_index(shapes, d, j);
        lemma_outputs_monotonic(d + 1, shapes.len());
        if d > 0 {
            lemma_level_source(d, j);
        }
        assert((j % 40) / 10 < 4);
    }
}

/// Every index below `outputs_up_to(n)` belongs to some depth `d < n`.
pub proof fn lemma_level_of(n: nat, i: int) -> (dj: (nat, int))
    requires
        0 <= i < outputs_up_to(n),
    ensures
        dj.0 < n,
        0 <= dj.1 < pow40(dj.0 + 1),
        i == outputs_up_to(dj.0) + dj.1,
    decreases n,
{
    let m = (n - 1) as nat;
    if i < outputs_up_to(m) {
        lemma_level_of(m, i)
    } else {
        (m, i - outputs_up_to(m))
    }
}

/// The chain of placement `outputs_up_to(d) + j` has one placement per depth up to `d`, the
/// placement at depth `k` using the shape `shapes[k]`.
pub proof fn lemma_drop_configs_chain(shapes: Seq<Shape>, d: nat, j: int)
    requires
        outputs_up_to(shapes.len()) < u32::MAX,
        d < shapes.len(),
        0 <= j < pow40(d + 1),
    ensures
        config_chain(drop_configs(shapes), outputs_up_to(d) + j).len() == d + 1,
        forall|k: int|
            0 <= k <= d ==> #[trigger] config_chain(drop_configs(shapes), outputs_up_to(d) + j)[k].shape_idx
                == shape_index(shapes[k]),
        forall|k: int|
            0 <= k <= d ==> #[trigger] config_chain(drop_configs(shapes), outputs_up_to(d) + j)[k].cw_rotations
                < 4,
    decreases d,
{
    let configs = drop_configs(shapes);
    let i = outputs_up_to(d) + j;
    lemma_drop_configs_len(shapes);
    lemma_drop_configs_index(shapes, d, j);
    lemma_outputs_monotonic(d + 1, shapes.len());
    assert((j % 40) / 10 < 4);
    if d == 0 {
        assert(j / 40 == 0);
    } else {
        lemma_level_source(d, j);
        let src = configs[i].src_field_idx as int;
        let jj = src - 1 - outputs_up_to((d - 1) as nat);
        lemma_drop_configs_chain(shapes, (d - 1) as nat, jj);
    }
}

/// `OUTPUTS_PER_INPUT_FIELD` to the power `e`.
pub fn outputs_at_depth(e: usize) -> (res: usize)
    requires
        pow40(e as nat) <= usize::MAX,
    ensures
        res == pow40(e as nat),
{
    let mut res: usize = 1;
    let mut i: usize = 0;
    while i < e
        invariant
            i <= e,
            res == pow40(i as nat),
            pow40(e as nat) <= usize::MAX,
        decreases e - i,
    {
        proof {
            lemma_pow40_monotonic((i + 1) as nat, e as nat);
        }
        res = res * OUTPUTS_PER_INPUT_FIELD;
        i = i + 1;
    }
    res
}

/// The number of placements a search of depth `search_depth` evaluates.
pub fn num_outputs(search_depth: usize) -> (res: usize)
    requires
        outputs_up_to(search_depth as nat) <= usize::MAX,
    ensures
        res == outputs_up_to(search_depth as nat),
{
    let mut total_outputs: usize = 0;
    let mut i: usize = 0;
    while i < search_depth
        invariant
            i <= search_depth,
            total_outputs == outputs_up_to(i as nat),
            outputs_up_to(search_depth as nat) <= usize::MAX,
        decreases search_depth - i,
    {
        proof {
            lemma_outputs_monotonic((i + 1) as nat, search_depth as nat);
        }
        total_outputs = total_outputs + outputs_at_depth(i + 1);
        i = i + 1;
    }
    total_outputs
}

/// Whether the placements are linked: each produces the field one past its index from an
/// earlier field, with a known shape and a rotation below 4.
pub fn configs_are_linked(configs: &[ComputedDropConfig]) -> (res: bool)
    ensures
        res == configs_linked(configs@),
{
    let mut i: usize = 0;
    while i < configs.len()
        invariant
            i <= configs@.len(),
            forall|j: int|
                0 <= j < i ==> (#[trigger] configs@[j]).dest_field_idx == j + 1
                    && configs@[j].src_field_idx <= j && configs@[j].shape_idx < 7
                    && configs@[j].cw_rotations < 4,
        decreases configs@.len() - i,
    {
        let c = configs[i];
        if !((c.dest_field_idx as usize) == i + 1 && (c.src_field_idx as usize) <= i && c.shape_idx < 7
            && c.cw_rotations < 4) {
            assert(configs@[i as int] == c);
            return false;
        }
        i = i + 1;
    }
    true
}

} // verus!
