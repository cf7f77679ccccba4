use manytris::add;
use manytris::bot::bot_cpu::CpuBotContext;
use manytris::bot::compute_types::{ComputedDropConfig, MoveResultScore};
use manytris::bot::{BotContext, BotResults};
use manytris::consts;
use manytris::field::{Field, Pos};
use manytris::game_state::GameState;
use manytris::shapes::Shape;
use manytris::tetromino::Tetromino;

#[test]
fn it_works() {
    let result = add(2, 2);
    assert_eq!(result, 4);
}

#[test]
fn compact_field_creation() {
    let mut f = Field::default();
    let t = Tetromino::new(Shape::I);
    f.apply_tetrominio(&t);

    let cf = f.make_bitmap_field();

    for p in &t.get_blocks() {
        assert_eq!(cf.occupied(p), true)
    }
    assert_eq!(cf.occupied(&Pos { x: 0, y: 0 }), false);
}

#[test]
fn ordering() {
    assert!(
        MoveResultScore {
            game_over: false,
            lines_cleared: 0,
            height: 0,
            covered: 0
        } > MoveResultScore {
            game_over: true,
            lines_cleared: 0,
            height: 0,
            covered: 0
        }
    );

    assert!(
        MoveResultScore {
            game_over: false,
            lines_cleared: 1,
            height: 0,
            covered: 0
        } > MoveResultScore {
            game_over: false,
            lines_cleared: 0,
            height: 0,
            covered: 0
        }
    );

    assert!(
        MoveResultScore {
            game_over: false,
            lines_cleared: 0,
            height: 0,
            covered: 0
        } > MoveResultScore {
            game_over: false,
            lines_cleared: 0,
            height: 1,
            covered: 0
        }
    );

    assert!(
        MoveResultScore {
            game_over: false,
            lines_cleared: 0,
            height: 0,
            covered: 0
        } > MoveResultScore {
            game_over: false,
            lines_cleared: 0,
            height: 0,
            covered: 1
        }
    );
}

#[test]
fn verify_search_depth() {
    let ctx = CpuBotContext;

    let upcoming_shapes = [Shape::I, Shape::I, Shape::I, Shape::I, Shape::I, Shape::I, Shape::I];
    let source_state = GameState::new(upcoming_shapes.into());
    {
        let result = ctx
            .compute_drop_search(0, &upcoming_shapes, &source_state)
            .unwrap();

        assert_eq!(result.fields().len(), 1);
        assert_eq!(result.configs().len(), 0);
        assert_eq!(result.scores().len(), 0);
    }

    {
        let result = ctx
            .compute_drop_search(1, &upcoming_shapes, &source_state)
            .unwrap();

        assert_eq!(result.fields().len(), 41);
        assert_eq!(result.configs().len(), 40);
        assert_eq!(result.scores().len(), 40);
    }

    {
        let result = ctx
            .compute_drop_search(2, &upcoming_shapes, &source_state)
            .unwrap();

        assert_eq!(result.fields().len(), 1641);
        assert_eq!(result.configs().len(), 1640);
        assert_eq!(result.scores().len(), 1640);
    }
}

fn find_score<P>(result: &impl BotResults, predicate: P) -> MoveResultScore
where
    P: Fn(&ComputedDropConfig) -> bool,
{
    let (idx, _) = result
        .configs()
        .iter()
        .enumerate()
        .find(|(_, cfg)| predicate(cfg))
        .expect("Couldn't find config matching predicate");

    result.scores()[idx]
}

fn verify_clear_lines(ctx: impl BotContext) {
    let upcoming_shapes = [Shape::I; 7];

    let gs = GameState::with_initial_state(
        upcoming_shapes.into(),
        Field::with_initial_occupied((0..9).map(|x| Pos { x, y: 0 }).collect()),
    );

    let result = ctx.compute_drop_search(1, &upcoming_shapes, &gs).unwrap();

    {
        let score = find_score(&result, |cfg| {
            cfg.cw_rotations == 1 && cfg.right_shifts == 4
        });
        assert_eq!(score, MoveResultScore::init(false, 1, 3, 0));
    }

    {
        let score = find_score(&result, |cfg| cfg.cw_rotations == 1 && cfg.left_shifts == 1);
        assert_eq!(score, MoveResultScore::init(false, 0, 5, 0));
    }
}

#[test]
fn verify_clear_lines_cpu() {
    verify_clear_lines(CpuBotContext)
}

fn verify_covered_lines(ctx: impl BotContext) {
    let upcoming_shapes = [Shape::I; 7];

    let gs = GameState::with_initial_state(
        upcoming_shapes.into(),
        Field::with_initial_occupied((0..9).map(|x| Pos { x, y: 0 }).collect()),
    );

    let result = ctx.compute_drop_search(1, &upcoming_shapes, &gs).unwrap();

    {
        let score = find_score(&result, |cfg| cfg.cw_rotations == 0 && cfg.left_shifts == 4);
        assert_eq!(score, MoveResultScore::init(false, 0, 2, 0));
    }

    {
        let score = find_score(&result, |cfg| {
            cfg.cw_rotations == 0 && cfg.right_shifts == 3
        });
        assert_eq!(score, MoveResultScore::init(false, 0, 2, 1));
    }
}

#[test]
fn verify_covered_lines_cpu() {
    verify_covered_lines(CpuBotContext)
}

fn verify_game_over(ctx: impl BotContext) {
    let upcoming_shapes = [Shape::I; 7];

    let gs = GameState::with_initial_state(
        upcoming_shapes.into(),
        Field::with_initial_occupied((0..consts::MAX_H).map(|y| Pos { x: 4, y }).collect()),
    );

    let result = ctx.compute_drop_search(1, &upcoming_shapes, &gs).unwrap();

    // all moves should be game over
    for score in result.scores() {
        assert_eq!(score.is_game_over(), true);
    }
}

#[test]
fn verify_game_over_cpu() {
    verify_game_over(CpuBotContext)
}
