use imdialog::draw::{ClipRect, DrawCommand, DrawFrame, DrawList, GpuOp, Scissor, plan_frame, scissor_for};

fn cmd(n: u32, x1: i32, y1: i32, x2: i32, y2: i32) -> DrawCommand {
    DrawCommand { elem_count: n, clip_rect: ClipRect { x1, y1, x2, y2 } }
}

#[test]
fn scissor_flips_vertical_axis() {
    let s = scissor_for(ClipRect { x1: 10, y1: 20, x2: 110, y2: 70 }, 600);
    assert!(s == Scissor { x: 10, y: 530, width: 100, height: 50 });
}

#[test]
fn inverted_clip_rect_clips_to_nothing() {
    let s = scissor_for(ClipRect { x1: 50, y1: 40, x2: 10, y2: 30 }, 600);
    assert!(s == Scissor { x: 50, y: 570, width: 0, height: 0 });
}

#[test]
fn plan_keeps_order_and_advances_index_cursor() {
    let frame = DrawFrame {
        lists: vec![
            DrawList { vertex_count: 8, index_count: 12, commands: vec![cmd(6, 0, 0, 800, 600), cmd(6, 10, 10, 20, 20)] },
            DrawList { vertex_count: 3, index_count: 3, commands: vec![cmd(3, 0, 0, 100, 100)] },
        ],
    };
    assert!(frame.is_well_formed());
    let ops = plan_frame(&frame, 600);
    let expected = vec![
        GpuOp::UploadVertices { list: 0, vertex_count: 8 },
        GpuOp::SetScissor(Scissor { x: 0, y: 0, width: 800, height: 600 }),
        GpuOp::DrawIndexed { count: 6, offset: 0 },
        GpuOp::SetScissor(Scissor { x: 10, y: 580, width: 10, height: 10 }),
        GpuOp::DrawIndexed { count: 6, offset: 6 },
        GpuOp::UploadVertices { list: 1, vertex_count: 3 },
        GpuOp::SetScissor(Scissor { x: 0, y: 500, width: 100, height: 100 }),
        GpuOp::DrawIndexed { count: 3, offset: 0 },
    ];
    assert!(ops == expected);
    let draws = ops.iter().filter(|o| matches!(o, GpuOp::DrawIndexed { .. })).count();
    assert_eq!(draws, 3);
}

#[test]
fn empty_frame_plans_nothing() {
    let frame = DrawFrame { lists: vec![] };
    assert!(frame.is_well_formed());
    assert!(plan_frame(&frame, 600).is_empty());
}

#[test]
fn commands_beyond_index_buffer_are_not_well_formed() {
    let frame = DrawFrame {
        lists: vec![DrawList { vertex_count: 3, index_count: 5, commands: vec![cmd(3, 0, 0, 1, 1), cmd(3, 0, 0, 1, 1)] }],
    };
    assert!(!frame.is_well_formed());
}
