use vstd::prelude::*;

verus! {

/// A clipping rectangle in interface coordinates (origin at the top left):
/// from corner (`x1`, `y1`) to corner (`x2`, `y2`).
#[derive(Clone, Copy, PartialEq, Eq, Structural)]
pub struct ClipRect {
    pub x1: i32,
    pub y1: i32,
    pub x2: i32,
    pub y2: i32,
}

/// A scissor box in framebuffer coordinates (origin at the bottom left).
#[derive(Clone, Copy, PartialEq, Eq, Structural)]
pub struct Scissor {
    pub x: i64,
    pub y: i64,
    pub width: i64,
    pub height: i64,
}

/// One sub-command of a batch: how many indices it draws, and where it clips.
#[derive(Clone, Copy, PartialEq, Eq, Structural)]
pub struct DrawCommand {
    pub elem_count: u32,
    pub clip_rect: ClipRect,
}

/// One batch: its vertex and index buffers (by their lengths) and the
/// sub-commands that share out the index buffer, in drawing order.
pub struct DrawList {
    pub vertex_count: usize,
    pub index_count: usize,
    pub commands: Vec<DrawCommand>,
}

/// What one frame of the interface asks to draw, batch by batch.
pub struct DrawFrame {
    pub lists: Vec<DrawList>,
}

/// One piece of GPU work.
#[derive(Clone, Copy, PartialEq, Eq, Structural)]
pub enum GpuOp {
    /// Upload the vertices of batch `list` into the shared vertex buffer.
    UploadVertices { list: usize, vertex_count: usize },
    /// Clip what follows to a box.
    SetScissor(Scissor),
    /// Draw `count` indices of the current batch as triangles, from `offset` on.
    DrawIndexed { count: u32, offset: usize },
}

/// The scissor box for clip rectangle `c` in a framebuffer `fb_height` high:
/// the vertical axis flips, and an inverted rectangle clips to nothing.
pub open spec fn scissor_of(c: ClipRect, fb_height: u32) -> Scissor {
    Scissor {
        x: c.x1 as i64,
        y: (fb_height - c.y2) as i64,
        width: if c.x2 >= c.x1 { (c.x2 - c.x1) as i64 } else { 0 },
        height: if c.y2 >= c.y1 { (c.y2 - c.y1) as i64 } else { 0 },
    }
}

/// The number of indices that the commands draw together.
pub open spec fn counts_sum(cmds: Seq<DrawCommand>) -> int
    decreases cmds.len(),
{
    if cmds.len() == 0 {
        0
    } else {
        counts_sum(cmds.drop_last()) + cmds.last().elem_count
    }
}

/// The work for a run of commands: for each in turn, its scissor box and then
/// its draw, which reads on where the one before stopped.
pub open spec fn command_ops(cmds: Seq<DrawCommand>, fb_height: u32) -> Seq<GpuOp>
    decreases cmds.len(),
{
    if cmds.len() == 0 {
        Seq::empty()
    } else {
        let rest = cmds.drop_last();
        command_ops(rest, fb_height)
            .push(GpuOp::SetScissor(scissor_of(cmds.last().clip_rect, fb_height)))
            .push(GpuOp::DrawIndexed { count: cmds.last().elem_count, offset: counts_sum(rest) as usize })
    }
}

/// The work for batch number `i`: the upload of its vertices, then its commands.
pub open spec fn list_ops(i: int, l: DrawList, fb_height: u32) -> Seq<GpuOp> {
    seq![GpuOp::UploadVertices { list: i as usize, vertex_count: l.vertex_count }]
        + command_ops(l.commands@, fb_height)
}

/// The work for a frame: the work of each batch, in order.
pub open spec fn frame_ops(lists: Seq<DrawList>, fb_height: u32) -> Seq<GpuOp>
    decreases lists.len(),
{
    if lists.len() == 0 {
        Seq::empty()
    } else {
        frame_ops(lists.drop_last(), fb_height) + list_ops(lists.len() - 1, lists.last(), fb_height)
    }
}

/// The number of draws among some work.
pub open spec fn draw_count(ops: Seq<GpuOp>) -> int
    decreases ops.len(),
{
    if ops.len() == 0 {
        0
    } else {
        draw_count(ops.drop_last()) + if ops.last() is DrawIndexed { 1int } else { 0 }
    }
}

/// The number of sub-commands of all batches.
pub open spec fn command_total(lists: Seq<DrawList>) -> int
    decreases lists.len(),
{
    if lists.len() == 0 {
        0
    } else {
        command_total(lists.drop_last()) + lists.last().commands@.len()
    }
}

impl DrawList {
    /// The commands share out no more than the index buffer.
    pub open spec fn wf(&self) -> bool {
        counts_sum(self.commands@) <= self.index_count
    }
}

impl DrawFrame {
    pub open spec fn wf(&self) -> bool {
        forall|i: int| 0 <= i < self.lists@.len() ==> #[trigger] self.lists@[i].wf()
    }

    /// Whether the commands of each batch stay within its index buffer.
    pub fn is_well_formed(&self) -> (r: bool)
        ensures
            r == self.wf(),
    {
        let mut i: usize = 0;
        while i < self.lists.len()
            invariant
                i <= self.lists@.len(),
                forall|k: int| 0 <= k < i ==> #[trigger] self.lists@[k].wf(),
            decreases self.lists@.len() - i,
        {
            let list = &self.lists[i];
            let mut total: usize = 0;
            let mut j: usize = 0;
            while j < list.commands.len()
                invariant
                    i < self.lists@.len(),
                    *list == self.lists@[i as int],
                    forall|k: int| 0 <= k < i ==> #[trigger] self.lists@[k].wf(),
                    j <= list.commands@.len(),
                    total == counts_sum(list.commands@.subrange(0, j as int)),
                    total <= list.index_count,
                decreases list.commands@.len() - j,
            {
                proof {
                    assert(list.commands@.subrange(0, j + 1).drop_last() =~= list.commands@.subrange(0, j as int));
                }
                let count = list.commands[j].elem_count;
                if count as u64 > (list.index_count - total) as u64 {
                    proof {
                        lemma_counts_prefix(list.commands@, j + 1);
                        assert(!self.lists@[i as int].wf());
                    }
                    return false;
                }
                total = total + count as usize;
                j = j + 1;
            }
            assert(list.commands@.subrange(0, j as int) =~= list.commands@);
            i = i + 1;
        }
        true
    }
}

proof fn lemma_counts_prefix(cmds: Seq<DrawCommand>, j: int)
    requires
        0 <= j <= cmds.len(),
    ensures
        0 <= counts_sum(cmds.subrange(0, j)) <= counts_sum(cmds),
    decreases cmds.len() - j,
{
    if j < cmds.len() {
        lemma_counts_prefix(cmds, j + 1);
        assert(cmds.subrange(0, j + 1).drop_last() =~= cmds.subrange(0, j));
        lemma_counts_nonneg(cmds.subrange(0, j));
    } else {
        assert(cmds.subrange(0, j) =~= cmds);
        lemma_counts_nonneg(cmds);
    }
}

proof fn lemma_counts_nonneg(cmds: Seq<DrawCommand>)
    ensures
        counts_sum(cmds) >= 0,
    decreases cmds.len(),
{
    if cmds.len() > 0 {
        lemma_counts_nonneg(cmds.drop_last());
    }
}

/// The scissor box for a clip rectangle.
pub fn scissor_for(c: ClipRect, fb_height: u32) -> (r: Scissor)
    ensures
        r == scissor_of(c, fb_height),
{
    Scissor {
        x: c.x1 as i64,
        y: fb_height as i64 - c.y2 as i64,
        width: if c.x2 >= c.x1 { c.x2 as i64 - c.x1 as i64 } else { 0 },
        height: if c.y2 >= c.y1 { c.y2 as i64 - c.y1 as i64 } else { 0 },
    }
}

/// The GPU work for a frame, in the order it must be done: for each batch, the
/// upload of its vertices, then for each of its commands the scissor box and
/// an indexed draw that reads on from where the previous draw stopped.
pub fn plan_frame(frame: &DrawFrame, fb_height: u32) -> (r: Vec<GpuOp>)
    requires
        frame.wf(),
    ensures
        r@ == frame_ops(frame.lists@, fb_height),
{
    let mut ops: Vec<GpuOp> = Vec::new();
    let mut i: usize = 0;
    assert(frame.lists@.subrange(0, 0) =~= Seq::<DrawList>::empty());
    while i < frame.lists.len()
        invariant
            frame.wf(),
            i <= frame.lists@.len(),
            ops@ == frame_ops(frame.lists@.subrange(0, i as int), fb_height),
        decreases frame.lists@.len() - i,
    {
        let list = &frame.lists[i];
        assert(list.wf());
        let ghost base = ops@;
        ops.push(GpuOp::UploadVertices { list: i, vertex_count: list.vertex_count });
        let mut offset: usize = 0;
        let mut j: usize = 0;
        assert(list.commands@.subrange(0, 0) =~= Seq::<DrawCommand>::empty());
        while j < list.commands.len()
            invariant
                list.wf(),
                j <= list.commands@.len(),
                offset == counts_sum(list.commands@.subrange(0, j as int)),
                ops@ == base + seq![GpuOp::UploadVertices { list: i, vertex_count: list.vertex_count }]
                    + command_ops(list.commands@.subrange(0, j as int), fb_height),
            decreases list.commands@.len() - j,
        {
            let cmd = list.commands[j];
            let ghost prefix = list.commands@.subrange(0, j as int);
            assert(list.commands@.subrange(0, j + 1).drop_last() =~= prefix);
            proof {
                lemma_counts_prefix(list.commands@, j + 1);
            }
            ops.push(GpuOp::SetScissor(scissor_for(cmd.clip_rect, fb_height)));
            ops.push(GpuOp::DrawIndexed { count: cmd.elem_count, offset });
            offset = offset + cmd.elem_count as usize;
            j = j + 1;
        }
        assert(list.commands@.subrange(0, j as int) =~= list.commands@);
        assert(frame.lists@.subrange(0, i + 1).drop_last() =~= frame.lists@.subrange(0, i as int));
        i = i + 1;
    }
    assert(frame.lists@.subrange(0, i as int) =~= frame.lists@);
    ops
}

proof fn lemma_draw_count_concat(a: Seq<GpuOp>, b: Seq<GpuOp>)
    ensures
        draw_count(a + b) == draw_count(a) + draw_count(b),
    decreases b.len(),
{
    if b.len() > 0 {
        lemma_draw_count_concat(a, b.drop_last());
        assert((a + b).drop_last() =~= a + b.drop_last());
    } else {
        assert(a + b =~= a);
    }
}

proof fn lemma_command_ops(cmds: Seq<DrawCommand>, fb_height: u32)
    ensures
        draw_count(command_ops(cmds, fb_height)) == cmds.len(),
        forall|k: int| 0 <= k < command_ops(cmds, fb_height).len() ==>
            (#[trigger] command_ops(cmds, fb_height)[k] matches GpuOp::SetScissor(s)
                ==> s.width >= 0 && s.height >= 0),
    decreases cmds.len(),
{
    if cmds.len() > 0 {
        lemma_command_ops(cmds.drop_last(), fb_height);
        let rest = command_ops(cmds.drop_last(), fb_height);
        let with_scissor = rest.push(GpuOp::SetScissor(scissor_of(cmds.last().clip_rect, fb_height)));
        let all = command_ops(cmds, fb_height);
        assert(with_scissor.drop_last() =~= rest);
        assert(all.drop_last() =~= with_scissor);
        assert(draw_count(with_scissor) == draw_count(rest));
        assert(all.last() is DrawIndexed);
        assert(draw_count(all) == draw_count(with_scissor) + 1);
        assert forall|k: int| 0 <= k < all.len() implies
            (#[trigger] all[k] matches GpuOp::SetScissor(s) ==> s.width >= 0 && s.height >= 0) by {
            if k < rest.len() {
                assert(all[k] == rest[k]);
            }
        }
    }
}

/// A frame's work holds exactly one draw per sub-command of its batches, and
/// every scissor box in it has a width and a height of at least zero.
pub proof fn one_draw_per_command(lists: Seq<DrawList>, fb_height: u32)
    ensures
        draw_count(frame_ops(lists, fb_height)) == command_total(lists),
        forall|k: int| 0 <= k < frame_ops(lists, fb_height).len() ==>
            (#[trigger] frame_ops(lists, fb_height)[k] matches GpuOp::SetScissor(s)
                ==> s.width >= 0 && s.height >= 0),
    decreases lists.len(),
{
    if lists.len() > 0 {
        let prev = lists.drop_last();
        let l = lists.last();
        one_draw_per_command(prev, fb_height);
        lemma_command_ops(l.commands@, fb_height);
        let up = seq![GpuOp::UploadVertices { list: (lists.len() - 1) as usize, vertex_count: l.vertex_count }];
        let cmds = command_ops(l.commands@, fb_height);
        lemma_draw_count_concat(up, cmds);
        lemma_draw_count_concat(frame_ops(prev, fb_height), up + cmds);
        assert(draw_count(up) == 0) by {
            assert(up.drop_last() =~= Seq::<GpuOp>::empty());
            assert(draw_count(Seq::<GpuOp>::empty()) == 0);
            assert(up.last() is UploadVertices);
        }
        let all = frame_ops(lists, fb_height);
        let a = frame_ops(prev, fb_height);
        assert forall|k: int| 0 <= k < all.len() implies
            (#[trigger] all[k] matches GpuOp::SetScissor(s) ==> s.width >= 0 && s.height >= 0) by {
            if k < a.len() {
                assert(all[k] == a[k]);
            } else if k > a.len() {
                assert(all[k] == cmds[k - a.len() - 1]);
            }
        }
    }
}

} // verus!
