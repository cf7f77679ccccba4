use manytris::bitmap_field::BitmapField;
use manytris::bot::bot_cpu::CpuBotContext;
use manytris::bot::bot_player::{ComputedDropSearchResults, MovementDescriptor};
use manytris::bot::bot_start_positions::{bot_start_position, idx_to_shape, shape_position_config, shape_to_idx};
use manytris::bot::compute_types::{ComputedDropConfig, MoveResultScore, TetrominoPositions};
use manytris::bot::search::{make_drop_configs_cpu, num_outputs, outputs_at_depth};
use manytris::bot::{evaluate_moves_cpu, find_covered, find_height, BotContext, BotResults, BotResultsWraper};
use manytris::consts;
use manytris::field::{Field, OccupiedBlock, Pos};
use manytris::game_state::{BlockDisplayState, DownType, GameState, LockResult, TickMutation, TickResult};
use manytris::proto::{CreateResponse, ManagementCommand, ManagerArgs, STATS_SERVER_PORT};
use manytris::shape_bag::ShapeBag;
use manytris::shapes::{Rot, Shape, Shift};
use manytris::tetromino::Tetromino;
use manytris::upcoming::UpcomingTetrominios;
use std::cmp::Ordering;
use manytris::progress::{LevelProgress, LINES_PER_LEVEL};
use manytris::input::{InputEvent, InputType};

fn shapes7() -> Vec<Shape> {
    vec![Shape::I, Shape::J, Shape::L, Shape::O, Shape::S, Shape::T, Shape::Z, Shape::I]
}

#[test]
fn bitmap_set_marks_only_that_cell() {
    let mut bf = BitmapField::default();
    let p = Pos { x: 3, y: 5 };
    assert!(!bf.occupied(&p));
    bf.set(&p);
    assert!(bf.occupied(&p));
    assert!(!bf.occupied(&Pos { x: 4, y: 5 }));
    assert!(!bf.occupied(&Pos { x: 3, y: 4 }));
    let mut other = BitmapField::default();
    assert!(bf != other);
    other.set(&p);
    assert!(bf == other);
}

#[test]
fn bitmap_last_cell() {
    let mut bf = BitmapField::default();
    let p = Pos { x: 9, y: 23 };
    bf.set(&p);
    assert!(bf.occupied(&p));
}

#[test]
fn pos_bounds() {
    assert!(Pos { x: -1, y: 0 }.out_of_bounds());
    assert!(Pos { x: 10, y: 0 }.out_of_bounds());
    assert!(Pos { x: 0, y: -1 }.out_of_bounds());
    assert!(!Pos { x: 0, y: 100 }.out_of_bounds());
    assert!(!Pos { x: 0, y: 24 }.is_safe());
    assert!(Pos { x: 9, y: 23 }.is_safe());
}

#[test]
fn spawn_positions() {
    let i = Tetromino::new(Shape::I);
    let blocks = i.get_blocks();
    assert_eq!(blocks, [Pos { x: 3, y: 20 }, Pos { x: 4, y: 20 }, Pos { x: 5, y: 20 }, Pos { x: 6, y: 20 }]);
    let o = Tetromino::new(Shape::O);
    assert!(o.contains(&Pos { x: 4, y: 20 }));
    assert!(o.contains(&Pos { x: 5, y: 21 }));
    assert!(!o.contains(&Pos { x: 3, y: 20 }));
    let vertical = bot_start_position(Shape::I, 1);
    for b in vertical.get_blocks() {
        assert_eq!(b.x, 5);
    }
}

#[test]
fn tetromino_moves() {
    let t = Tetromino::new(Shape::T);
    let l = t.shift(Shift::Left).unwrap();
    assert_eq!(l.x, t.x - 1);
    assert_eq!(l.shift(Shift::Right).unwrap(), t);
    let mut far = t;
    while let Some(n) = far.shift(Shift::Left) {
        far = n;
    }
    assert_eq!(far.get_blocks().iter().map(|p| p.x).min(), Some(0));
    let mut low = t;
    let mut steps = 0;
    while let Some(n) = low.down() {
        low = n;
        steps += 1;
    }
    assert_eq!(low.get_blocks().iter().map(|p| p.y).min(), Some(0));
    assert_eq!(steps, 20);
}

#[test]
fn rotation_options_keep_in_bounds() {
    let t = bot_start_position(Shape::I, 1);
    let mut left = t;
    while let Some(n) = left.shift(Shift::Left) {
        left = n;
    }
    let opts = left.rotation_options(Rot::Cw);
    assert!(!opts.is_empty());
    for o in &opts {
        for b in o.get_blocks() {
            assert!(!b.out_of_bounds());
        }
        assert_eq!(o.rotation, 2);
    }
    let t = Tetromino::new(Shape::J);
    let four = t.rotation_options(Rot::Cw)[0].rotation_options(Rot::Ccw)[0];
    assert_eq!(four, t);
}

#[test]
fn field_garbage_and_clear() {
    let mut f = Field::new();
    f.apply_garbage();
    f.apply_garbage();
    for x in 0..9 {
        assert_eq!(f.get_occupied_block(&Pos { x, y: 0 }), Some(OccupiedBlock::FromGarbage));
        assert_eq!(f.get_occupied_block(&Pos { x, y: 1 }), Some(OccupiedBlock::FromGarbage));
    }
    assert_eq!(f.get_occupied_block(&Pos { x: 9, y: 0 }), None);
    assert_eq!(f.get_occupied_block(&Pos { x: 9, y: 2 }), None);
    // A vertical I in the gap clears both garbage rows.
    let mut t = bot_start_position(Shape::I, 1);
    for _ in 0..4 {
        t = t.shift(Shift::Right).unwrap();
    }
    let landed = f.find_shadow(&t);
    assert!(f.is_valid(&landed));
    assert!(f.is_lockable(&landed));
    let lines = f.apply_tetrominio(&landed);
    assert_eq!(lines, 2);
    assert_eq!(f.get_occupied_block(&Pos { x: 9, y: 0 }), Some(OccupiedBlock::FromShape(Shape::I)));
    assert_eq!(f.get_occupied_block(&Pos { x: 9, y: 1 }), Some(OccupiedBlock::FromShape(Shape::I)));
    assert_eq!(f.get_occupied_block(&Pos { x: 9, y: 2 }), None);
    assert_eq!(f.get_occupied_block(&Pos { x: 0, y: 0 }), None);
}

#[test]
fn clearing_stops_at_first_empty_row() {
    // Row 0 full except x = 9, row 1 empty, row 2 full: row 2 is above an empty row.
    let mut cells: Vec<Pos> = (0..9).map(|x| Pos { x, y: 0 }).collect();
    cells.extend((0..10).map(|x| Pos { x, y: 2 }));
    let mut f = Field::with_initial_occupied(cells);
    let t = Tetromino::for_preview(Shape::O);
    // An O far above everything does not complete any row.
    let mut o = t;
    for _ in 0..10 {
        o = Tetromino { y: o.y + 1, ..o };
    }
    assert_eq!(f.apply_tetrominio(&o), 0);
    assert!(f.get_occupied_block(&Pos { x: 0, y: 2 }).is_some());
    assert!(f.get_occupied_block(&Pos { x: 0, y: 0 }).is_some());
}

#[test]
fn bitmap_matches_field() {
    let f = Field::with_initial_occupied(vec![Pos { x: 1, y: 1 }, Pos { x: 9, y: 23 }, Pos { x: 20, y: 1 }]);
    let bf = f.make_bitmap_field();
    assert!(bf.occupied(&Pos { x: 1, y: 1 }));
    assert!(bf.occupied(&Pos { x: 9, y: 23 }));
    assert!(!bf.occupied(&Pos { x: 0, y: 2 }));
    assert_eq!(find_height(&bf), 0);
    assert_eq!(find_covered(&bf, 22), 1);
}

#[test]
fn height_and_covered() {
    let f = Field::with_initial_occupied(vec![Pos { x: 0, y: 0 }, Pos { x: 0, y: 1 }, Pos { x: 1, y: 2 }, Pos { x: 2, y: 0 }]);
    let bf = f.make_bitmap_field();
    assert_eq!(find_height(&bf), 3);
    // Column 1: top at row 2, rows 0 and 1 open.
    assert_eq!(find_covered(&bf, 3), 2);
    assert_eq!(find_covered(&bf, 0), 0);
}

#[test]
fn game_drop_locks_and_spawns_next() {
    let mut gs = GameState::new(shapes7());
    assert_eq!(gs.active_shape(), Shape::I);
    assert_eq!(gs.num_upcoming(), 7);
    let res = gs.tick_mutation(vec![TickMutation::DropInput]);
    assert_eq!(res, vec![TickResult::ClearLockTimer, TickResult::Lock(LockResult::Success { lines_cleared: 0 })]);
    assert_eq!(gs.active_shape(), Shape::J);
    assert_eq!(gs.num_upcoming(), 6);
    let bf = gs.make_bitmap_field();
    for x in 3..7 {
        assert!(bf.occupied(&Pos { x, y: 0 }));
    }
    assert_eq!(gs.upcoming_shapes(), [Shape::L, Shape::O, Shape::S, Shape::T, Shape::Z, Shape::I]);
    let previews = gs.previews();
    assert_eq!(previews[0], Tetromino::for_preview(Shape::L));
}

#[test]
fn game_down_and_shift() {
    let mut gs = GameState::new(shapes7());
    let res = gs.tick_mutation(vec![
        TickMutation::DownInput(DownType::Gravity),
        TickMutation::ShiftInput(Shift::Left),
        TickMutation::ShiftInput(Shift::Left),
        TickMutation::ShiftInput(Shift::Left),
        TickMutation::ShiftInput(Shift::Left),
        TickMutation::RotateInput(Rot::Cw),
    ]);
    // Three shifts fit, the fourth hits the wall.
    assert_eq!(res.len(), 5);
    assert!(res.iter().all(|r| *r == TickResult::ClearLockTimer));
    assert_eq!(gs.get_display_state(&Pos { x: 2, y: 0 }), BlockDisplayState::Shadow(Shape::I));
    assert_eq!(gs.get_display_state(&Pos { x: 5, y: 5 }), BlockDisplayState::Empty);
}

#[test]
fn first_press_down_locks_on_floor() {
    let mut gs = GameState::new(shapes7());
    let mut mutations = vec![];
    for _ in 0..20 {
        mutations.push(TickMutation::DownInput(DownType::Gravity));
    }
    let res = gs.tick_mutation(mutations);
    assert_eq!(res.last(), Some(&TickResult::RestartLockTimer));
    assert!(gs.tick_mutation(vec![TickMutation::DownInput(DownType::HoldRepeat)]).is_empty());
    let res = gs.tick_mutation(vec![TickMutation::DownInput(DownType::FirstPress)]);
    assert_eq!(res[1], TickResult::Lock(LockResult::Success { lines_cleared: 0 }));
}

#[test]
fn hold_once_per_lock() {
    let mut gs = GameState::new(shapes7());
    assert_eq!(gs.held_tetromino(), None);
    let res = gs.tick_mutation(vec![TickMutation::HoldInput]);
    assert_eq!(res, vec![TickResult::ClearLockTimer]);
    assert_eq!(gs.held_tetromino(), Some(Tetromino::for_preview(Shape::I)));
    assert_eq!(gs.active_shape(), Shape::J);
    assert!(gs.tick_mutation(vec![TickMutation::HoldInput]).is_empty());
    gs.tick_mutation(vec![TickMutation::LockTimerExpired]);
    assert_eq!(gs.active_shape(), Shape::L);
    gs.tick_mutation(vec![TickMutation::HoldInput]);
    assert_eq!(gs.active_shape(), Shape::I);
    assert_eq!(gs.held_tetromino(), Some(Tetromino::for_preview(Shape::L)));
}

#[test]
fn garbage_rises_after_three_locks() {
    let mut gs = GameState::new(shapes7());
    gs.tick_mutation(vec![TickMutation::EnqueueGarbage(2)]);
    assert_eq!(gs.get_garbage_element_countdown(0), Some(3));
    assert_eq!(gs.get_garbage_element_countdown(1), Some(3));
    assert_eq!(gs.get_garbage_element_countdown(2), None);
    gs.tick_mutation(vec![TickMutation::DropInput]);
    assert_eq!(gs.get_garbage_element_countdown(0), Some(2));
    gs.tick_mutation(vec![TickMutation::DropInput]);
    assert_eq!(gs.get_garbage_element_countdown(0), Some(1));
    gs.tick_mutation(vec![TickMutation::DropInput]);
    assert_eq!(gs.get_garbage_element_countdown(0), None);
    let bf = gs.make_bitmap_field();
    for x in 0..9 {
        assert!(bf.occupied(&Pos { x, y: 0 }));
        assert!(bf.occupied(&Pos { x, y: 1 }));
    }
    assert!(!bf.occupied(&Pos { x: 9, y: 0 }));
}

#[test]
fn game_over_when_spawn_blocked() {
    let field = Field::with_initial_occupied((0..consts::MAX_H).map(|y| Pos { x: 4, y }).collect());
    let mut gs = GameState::with_initial_state(shapes7(), field);
    let res = gs.tick_mutation(vec![TickMutation::DropInput]);
    assert_eq!(res[1], TickResult::Lock(LockResult::GameOver));
}

#[test]
fn enqueue_goes_to_back() {
    let mut u = UpcomingTetrominios::new(vec![Shape::S, Shape::Z]);
    u.enqueue(Shape::O);
    assert_eq!(u.take(), Shape::S);
    assert_eq!(u.take(), Shape::Z);
    assert_eq!(u.take(), Shape::O);
    assert_eq!(u.len(), 0);
}

#[test]
fn shape_indices() {
    for s in [Shape::I, Shape::J, Shape::L, Shape::O, Shape::S, Shape::T, Shape::Z] {
        assert_eq!(idx_to_shape(shape_to_idx(s)), Some(s));
    }
    assert_eq!(shape_to_idx(Shape::I), 0);
    assert_eq!(shape_to_idx(Shape::Z), 6);
    assert_eq!(idx_to_shape(7), None);
}

#[test]
fn start_position_table() {
    let cfg = shape_position_config();
    let i_vertical = &cfg.starting_positions[0].bot_positions[1];
    for p in i_vertical.pos {
        assert_eq!(p[0], 5);
    }
    let tp = TetrominoPositions::from_tetromino(Tetromino::new(Shape::O));
    assert_eq!(tp.pos, [[4, 20], [5, 20], [4, 21], [5, 21]]);
}

#[test]
fn output_counts() {
    assert_eq!(num_outputs(0), 0);
    assert_eq!(num_outputs(1), 40);
    assert_eq!(num_outputs(2), 1640);
    assert_eq!(num_outputs(3), 65640);
    assert_eq!(outputs_at_depth(2), 1600);
    assert_eq!(ComputedDropSearchResults::idx_range(0), (0, 40));
    assert_eq!(ComputedDropSearchResults::idx_range(1), (40, 1640));
}

#[test]
fn drop_configs_layout() {
    let configs = make_drop_configs_cpu(&[Shape::I, Shape::J]);
    assert_eq!(configs.len(), 1640);
    let mut expected = vec![];
    let mut next_idx = 1u32;
    for cw_rotations in 0..4u8 {
        for shifts in 0..10i32 {
            expected.push(ComputedDropConfig {
                shape_idx: 0,
                cw_rotations,
                left_shifts: std::cmp::max(4 - shifts, 0) as u8,
                right_shifts: std::cmp::max(shifts - 4, 0) as u8,
                src_field_idx: 0,
                dest_field_idx: next_idx,
            });
            next_idx += 1;
        }
    }
    for src_field_idx in 1..41u32 {
        for cw_rotations in 0..4u8 {
            for shifts in 0..10i32 {
                expected.push(ComputedDropConfig {
                    shape_idx: 1,
                    cw_rotations,
                    left_shifts: std::cmp::max(4 - shifts, 0) as u8,
                    right_shifts: std::cmp::max(shifts - 4, 0) as u8,
                    src_field_idx,
                    dest_field_idx: next_idx,
                });
                next_idx += 1;
            }
        }
    }
    assert_eq!(configs, expected);
}

#[test]
fn movement_descriptor_mutations() {
    let cfg = ComputedDropConfig { shape_idx: 2, cw_rotations: 3, src_field_idx: 0, dest_field_idx: 1, left_shifts: 2, right_shifts: 0 };
    let md = MovementDescriptor::from_drop_config(&cfg);
    assert_eq!(md, MovementDescriptor { shape: Shape::L, cw_rotations: 3, shifts_right: -2 });
    let ms = md.as_tick_mutations();
    assert_eq!(ms.len(), 4);
    assert_eq!(ms[0], TickMutation::JumpToBotStartPosition(bot_start_position(Shape::L, 3)));
    assert_eq!(ms[1], TickMutation::ShiftInput(Shift::Left));
    assert_eq!(ms[2], TickMutation::ShiftInput(Shift::Left));
    assert_eq!(ms[3], TickMutation::DropInput);
}

#[test]
fn best_path_reconstruction() {
    let configs = make_drop_configs_cpu(&[Shape::I, Shape::O]);
    let scores = vec![MoveResultScore::init(false, 0, 0, 0); configs.len()];
    // Placement 45 is the sixth placement on field 1, which placement 0 produced.
    let res = ComputedDropSearchResults::from_best_index(1, [Shape::I; 7], &configs, &scores, 45);
    assert_eq!(res.drops.len(), 2);
    assert_eq!(res.drops[0], MovementDescriptor { shape: Shape::I, cw_rotations: 0, shifts_right: -4 });
    assert_eq!(res.drops[1], MovementDescriptor { shape: Shape::O, cw_rotations: 0, shifts_right: 1 });
    let mr = res.make_move_result();
    assert_eq!(mr.moves, res.drops);
    assert_eq!(mr.score, res.score);
}

#[test]
fn evaluate_single_drop() {
    let gs = GameState::new(shapes7());
    let md = MovementDescriptor { shape: Shape::I, cw_rotations: 0, shifts_right: 0 };
    let (after, score, field) = evaluate_moves_cpu(&gs, &[md]);
    assert_eq!(score, MoveResultScore::init(false, 0, 1, 0));
    assert!(field.occupied(&Pos { x: 3, y: 0 }));
    assert_eq!(after.active_shape(), Shape::J);
    let (_, score2) = manytris::bot::bot_player::evaluate_moves_cpu(&gs, &[md, md]);
    assert_eq!(score2, MoveResultScore::init(false, 0, 2, 0));
}

#[test]
fn cpu_search_results_compare() {
    let shapes = [Shape::T; 7];
    let gs = GameState::new(shapes.into());
    let a = CpuBotContext.compute_drop_search(1, &shapes, &gs).unwrap();
    let b = CpuBotContext.compute_drop_search(1, &shapes, &gs).unwrap();
    assert!(BotResultsWraper(&a).eq(&BotResultsWraper(&b)));
    let c = CpuBotContext.compute_drop_search(0, &shapes, &gs).unwrap();
    assert!(!BotResultsWraper(&a).eq(&BotResultsWraper(&c)));
    assert_eq!(a.fields()[0], gs.make_bitmap_field());
}

#[test]
fn score_comparisons() {
    let a = MoveResultScore::init(false, 2, 5, 3);
    let b = MoveResultScore::init(false, 2, 4, 3);
    assert_eq!(a.cmp(&b), Ordering::Less);
    assert_eq!(b.cmp(&a), Ordering::Greater);
    assert_eq!(a.cmp(&a), Ordering::Equal);
    assert!(MoveResultScore::init(false, 0, 0, 9) > MoveResultScore::init(true, 4, 0, 0));
    assert!(MoveResultScore::init(false, 1, 9, 9) > MoveResultScore::init(false, 0, 0, 0));
}

#[test]
fn shape_bag_draws_each_shape_once_per_round() {
    let mut bag = ShapeBag::default();
    let mut seen: Vec<Shape> = (0..7).map(|_| bag.next().unwrap()).collect();
    seen.sort_by_key(|s| shape_to_idx(*s));
    assert_eq!(seen, vec![Shape::I, Shape::J, Shape::L, Shape::O, Shape::S, Shape::T, Shape::Z]);
}

#[test]
fn proto_values() {
    assert_eq!(STATS_SERVER_PORT, 9990);
    let args = ManagerArgs { cmd: ManagementCommand::Create };
    assert_eq!(args.cmd, ManagementCommand::Create);
    assert_ne!(CreateResponse::Created, CreateResponse::AlreadyExists);
}

#[test]
fn level_progress() {
    let mut p = LevelProgress::new();
    assert_eq!(p.level, 1);
    p.apply_lock_result(&LockResult::Success { lines_cleared: 4 });
    assert_eq!(p, LevelProgress { lines_cleared: 4, level: 1, lines_to_next_level: 6 });
    p.apply_lock_result(&LockResult::GameOver);
    assert_eq!(p.lines_cleared, 4);
    p.apply_lock_result(&LockResult::Success { lines_cleared: 4 });
    p.apply_lock_result(&LockResult::Success { lines_cleared: 3 });
    assert_eq!(p, LevelProgress { lines_cleared: 11, level: 2, lines_to_next_level: LINES_PER_LEVEL });
}

#[test]
fn input_to_mutations() {
    let down = InputEvent { input_type: InputType::DownEvent, is_repeat: false };
    assert_eq!(down.to_tick_mutations(), vec![TickMutation::DownInput(DownType::FirstPress)]);
    let repeat = InputEvent { input_type: InputType::DownEvent, is_repeat: true };
    assert_eq!(repeat.to_tick_mutations(), vec![TickMutation::DownInput(DownType::HoldRepeat)]);
    let garbage = InputEvent { input_type: InputType::EnqueueGarbageEvent(2), is_repeat: false };
    assert_eq!(garbage.to_tick_mutations(), vec![TickMutation::EnqueueGarbage(2)]);
    let bot = InputEvent { input_type: InputType::PerformBotMoveEvent, is_repeat: false };
    assert!(bot.to_tick_mutations().is_empty());
}

#[test]
fn batched_mutations_match_one_by_one() {
    let batch = vec![
        TickMutation::ShiftInput(Shift::Right),
        TickMutation::RotateInput(Rot::Ccw),
        TickMutation::HoldInput,
        TickMutation::DropInput,
        TickMutation::EnqueueTetromino(Shape::T),
        TickMutation::DownInput(DownType::FirstPress),
    ];
    let mut together = GameState::new(shapes7());
    let all = together.tick_mutation(batch.clone());
    let mut apart = GameState::new(shapes7());
    let mut each = vec![];
    for m in batch {
        each.extend(apart.tick_mutation(vec![m]));
    }
    assert_eq!(all, each);
    assert_eq!(together.make_bitmap_field(), apart.make_bitmap_field());
    assert_eq!(together.active_shape(), apart.active_shape());
    assert_eq!(together.num_upcoming(), apart.num_upcoming());
}
