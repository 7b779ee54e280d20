//! Keyboard decisions of the main loop: warp requests and display toggles.
use vstd::prelude::*;

verus! {

/// A warp request from the keyboard.
#[derive(Clone, Copy, Debug, PartialEq, Eq, Structural)]
pub enum WarpCommand {
    /// Tab: go to the destination after the current one.
    Next,
    /// A digit key: go to the destination with this index.
    To(usize),
}

/// Requests from the digit keys 3 to 9, in key order: flag `j` stands for
/// digit `3 + j`, which asks for destination `3 + j - 1`.
pub open spec fn digit_commands(digit_pressed: Seq<bool>) -> Seq<WarpCommand>
    decreases digit_pressed.len(),
{
    if digit_pressed.len() == 0 {
        Seq::empty()
    } else {
        let j = digit_pressed.len() - 1;
        digit_commands(digit_pressed.drop_last()) + if digit_pressed.last() {
            seq![WarpCommand::To((j + 2) as usize)]
        } else {
            Seq::empty()
        }
    }
}

/// All warp requests of one frame, in the order they are carried out: Tab
/// first, then the digit keys from 3 to 9.
pub open spec fn spec_warp_commands(tab_pressed: bool, digit_pressed: Seq<bool>) -> Seq<WarpCommand> {
    (if tab_pressed {
        seq![WarpCommand::Next]
    } else {
        Seq::empty()
    }) + digit_commands(digit_pressed)
}

/// Order key of a warp request: Tab before every digit, digits by the
/// destination they ask for.
pub open spec fn command_target(c: WarpCommand) -> int {
    match c {
        WarpCommand::Next => -1,
        WarpCommand::To(i) => i as int,
    }
}

/// Requests listed in strictly increasing `command_target` order (so none
/// twice).
pub open spec fn in_command_order(s: Seq<WarpCommand>) -> bool {
    forall|a: int, b: int| 0 <= a < b < s.len() ==> command_target(#[trigger] s[a]) < command_target(#[trigger] s[b])
}

proof fn lemma_digit_commands(p: Seq<bool>)
    requires
        p.len() + 2 <= usize::MAX,
    ensures
        forall|i: usize|
            #[trigger] digit_commands(p).contains(WarpCommand::To(i)) <==> (2 <= i < p.len() + 2 && p[i - 2]),
        !digit_commands(p).contains(WarpCommand::Next),
        in_command_order(digit_commands(p)),
        forall|a: int| 0 <= a < digit_commands(p).len() ==> 2 <= command_target(#[trigger] digit_commands(p)[a]) < p.len() + 2,
    decreases p.len(),
{
    if p.len() > 0 {
        let d = p.drop_last();
        lemma_digit_commands(d);
        let j = p.len() - 1;
        let prev = digit_commands(d);
        let tail = if p.last() {
            seq![WarpCommand::To((j + 2) as usize)]
        } else {
            Seq::empty()
        };
        let all = digit_commands(p);
        assert(all == prev + tail);
        assert forall|i: usize| #[trigger] all.contains(WarpCommand::To(i)) <==> (2 <= i < p.len() + 2 && p[i - 2]) by {
            let c = WarpCommand::To(i);
            if all.contains(c) {
                let a = choose|a: int| 0 <= a < all.len() && all[a] == c;
                if a < prev.len() {
                    assert(prev.contains(c));
                    assert(d[i - 2] == p[i - 2]);
                }
            }
            if 2 <= i < p.len() + 2 && p[i - 2] {
                if i < p.len() + 1 {
                    assert(d[i - 2] == p[i - 2]);
                    assert(prev.contains(c));
                    let a = choose|a: int| 0 <= a < prev.len() && prev[a] == c;
                    assert(all[a] == c);
                } else {
                    assert(all[prev.len() as int] == c);
                }
            }
        }
        assert(!all.contains(WarpCommand::Next)) by {
            if all.contains(WarpCommand::Next) {
                let a = choose|a: int| 0 <= a < all.len() && all[a] == WarpCommand::Next;
                if a < prev.len() {
                    assert(prev.contains(WarpCommand::Next));
                }
            }
        }
        assert forall|a: int| 0 <= a < all.len() implies 2 <= command_target(#[trigger] all[a]) < p.len() + 2 by {
            if a < prev.len() {
                assert(all[a] == prev[a]);
            }
        }
        assert forall|a: int, b: int| 0 <= a < b < all.len() implies command_target(#[trigger] all[a])
            < command_target(#[trigger] all[b]) by {
            if b < prev.len() {
                assert(all[a] == prev[a] && all[b] == prev[b]);
            } else if a < prev.len() {
                assert(all[a] == prev[a]);
            }
        }
    }
}

/// Warp key law: the requests of a frame are exactly Tab's "next" when Tab
/// was pressed and, for every pressed digit key `3 + j`, one request for
/// destination `j + 2` of that same key; Tab's request comes first and the
/// digit requests follow in key order, none twice.
pub proof fn lemma_warp_commands_follow_keys(tab_pressed: bool, digit_pressed: Seq<bool>)
    requires
        digit_pressed.len() + 2 <= usize::MAX,
    ensures
        spec_warp_commands(tab_pressed, digit_pressed).contains(WarpCommand::Next) <==> tab_pressed,
        forall|i: usize|
            #[trigger] spec_warp_commands(tab_pressed, digit_pressed).contains(WarpCommand::To(i)) <==> (2 <= i
                < digit_pressed.len() + 2 && digit_pressed[i - 2]),
        in_command_order(spec_warp_commands(tab_pressed, digit_pressed)),
{
    lemma_digit_commands(digit_pressed);
    let head = if tab_pressed {
        seq![WarpCommand::Next]
    } else {
        Seq::<WarpCommand>::empty()
    };
    let rest = digit_commands(digit_pressed);
    let all = spec_warp_commands(tab_pressed, digit_pressed);
    assert(all == head + rest);
    assert forall|c: WarpCommand| #[trigger] all.contains(c) <==> (head.contains(c) || rest.contains(c)) by {
        if all.contains(c) {
            let a = choose|a: int| 0 <= a < all.len() && all[a] == c;
            if a >= head.len() {
                assert(rest[a - head.len()] == c);
            }
        }
        if rest.contains(c) {
            let a = choose|a: int| 0 <= a < rest.len() && rest[a] == c;
            assert(all[a + head.len()] == c);
        }
        if head.contains(c) {
            assert(all[0] == c);
        }
    }
    assert(all.contains(WarpCommand::Next) <==> tab_pressed) by {
        if tab_pressed {
            assert(head[0] == WarpCommand::Next);
        }
    }
    assert forall|i: usize| #[trigger] all.contains(WarpCommand::To(i)) <==> (2 <= i < digit_pressed.len() + 2
        && digit_pressed[i - 2]) by {
        assert(all.contains(WarpCommand::To(i)) <==> (head.contains(WarpCommand::To(i)) || rest.contains(
            WarpCommand::To(i),
        )));
        if head.contains(WarpCommand::To(i)) {
            let a = choose|a: int| 0 <= a < head.len() && head[a] == WarpCommand::To(i);
        }
    }
    assert forall|a: int, b: int| 0 <= a < b < all.len() implies command_target(#[trigger] all[a])
        < command_target(#[trigger] all[b]) by {
        if a >= head.len() {
            assert(all[a] == rest[a - head.len()] && all[b] == rest[b - head.len()]);
        } else {
            assert(all[a] == WarpCommand::Next);
            assert(all[b] == rest[b - head.len()]);
        }
    }
}

/// Turns this frame's key presses into warp requests. `digit_pressed[j]`
/// says whether digit key `3 + j` was pressed.
pub fn warp_commands(tab_pressed: bool, digit_pressed: &Vec<bool>) -> (cmds: Vec<WarpCommand>)
    requires
        digit_pressed@.len() == 7,
    ensures
        cmds@ == spec_warp_commands(tab_pressed, digit_pressed@),
        cmds@.contains(WarpCommand::Next) <==> tab_pressed,
        forall|i: usize|
            #[trigger] cmds@.contains(WarpCommand::To(i)) <==> (2 <= i < 9 && digit_pressed@[i - 2]),
        in_command_order(cmds@),
{
    let mut cmds: Vec<WarpCommand> = Vec::new();
    if tab_pressed {
        cmds.push(WarpCommand::Next);
    }
    let ghost head = cmds@;
    proof {
        assert(digit_pressed@.take(0) =~= Seq::<bool>::empty());
        assert(head + digit_commands(digit_pressed@.take(0)) =~= head);
    }
    let mut j: usize = 0;
    while j < digit_pressed.len()
        invariant
            j <= digit_pressed@.len(),
            digit_pressed@.len() == 7,
            head == (if tab_pressed {
                seq![WarpCommand::Next]
            } else {
                Seq::empty()
            }),
            cmds@ == head + digit_commands(digit_pressed@.take(j as int)),
        decreases digit_pressed@.len() - j,
    {
        if digit_pressed[j] {
            cmds.push(WarpCommand::To(j + 2));
        }
        proof {
            let t = digit_pressed@.take(j + 1);
            assert(t.drop_last() =~= digit_pressed@.take(j as int));
            assert(t.last() == digit_pressed@[j as int]);
        }
        j = j + 1;
        proof {
            assert(cmds@ =~= head + digit_commands(digit_pressed@.take(j as int)));
        }
    }
    proof {
        assert(digit_pressed@.take(7) =~= digit_pressed@);
        lemma_warp_commands_follow_keys(tab_pressed, digit_pressed@);
    }
    cmds
}

/// Flips the orbit display when O was pressed and the ship display when V
/// was pressed.
pub fn handle_toggle_input(show_orbits: &mut bool, show_ship: &mut bool, o_pressed: bool, v_pressed: bool)
    ensures
        *final(show_orbits) == (*old(show_orbits) != o_pressed),
        *final(show_ship) == (*old(show_ship) != v_pressed),
{
    if o_pressed {
        *show_orbits = !*show_orbits;
    }
    if v_pressed {
        *show_ship = !*show_ship;
    }
}


/// Camera keys held down this frame.
#[derive(Clone, Copy, Debug, PartialEq, Eq, Structural)]
pub struct CameraKeys {
    pub a: bool,
    pub d: bool,
    pub w: bool,
    pub s: bool,
    pub up: bool,
    pub down: bool,
    pub q: bool,
    pub left: bool,
    pub e: bool,
    pub right: bool,
    pub r: bool,
    pub f: bool,
    pub z: bool,
    pub x: bool,
}

/// One camera movement step.
#[derive(Clone, Copy, Debug, PartialEq, Eq, Structural)]
pub enum CameraMove {
    /// A: turn left (yaw up).
    YawLeft,
    /// D: turn right (yaw down).
    YawRight,
    /// W: tilt up.
    PitchUp,
    /// S: tilt down.
    PitchDown,
    /// Up arrow: move closer to the target.
    ZoomIn,
    /// Down arrow: move away from the target.
    ZoomOut,
    /// Q or left arrow: slide the target sideways.
    PanLeft,
    /// E or right arrow: slide the target the other way.
    PanRight,
    /// R: raise the target.
    Raise,
    /// F: lower the target.
    Lower,
    /// Z: move the target forward along the view direction.
    Forward,
    /// X: move the target back.
    Back,
}

/// `m` when `held`, else nothing.
pub open spec fn move_if(held: bool, m: CameraMove) -> Seq<CameraMove> {
    if held {
        seq![m]
    } else {
        Seq::empty()
    }
}

/// The camera steps of one frame, in the order they are applied: rotation,
/// zoom, horizontal pan, vertical pan, then forward and back. The pan
/// direction is taken after the rotation and zoom steps.
pub open spec fn spec_camera_moves(k: CameraKeys) -> Seq<CameraMove> {
    move_if(k.a, CameraMove::YawLeft) + move_if(k.d, CameraMove::YawRight) + move_if(k.w, CameraMove::PitchUp)
        + move_if(k.s, CameraMove::PitchDown) + move_if(k.up, CameraMove::ZoomIn) + move_if(
        k.down,
        CameraMove::ZoomOut,
    ) + move_if(k.q || k.left, CameraMove::PanLeft) + move_if(k.e || k.right, CameraMove::PanRight) + move_if(
        k.r,
        CameraMove::Raise,
    ) + move_if(k.f, CameraMove::Lower) + move_if(k.z, CameraMove::Forward) + move_if(k.x, CameraMove::Back)
}

/// Appends `m` when `held`.
fn push_if(moves: &mut Vec<CameraMove>, held: bool, m: CameraMove)
    ensures
        final(moves)@ == old(moves)@ + move_if(held, m),
{
    if held {
        moves.push(m);
    }
    proof {
        assert(final(moves)@ =~= old(moves)@ + move_if(held, m));
    }
}

/// Turns the held camera keys into the movement steps to apply, in order.
pub fn camera_moves(keys: CameraKeys) -> (moves: Vec<CameraMove>)
    ensures
        moves@ == spec_camera_moves(keys),
        forall|m: CameraMove| #[trigger] moves@.contains(m) <==> move_requested(keys, m),
        in_move_order(moves@),
{
    let mut moves: Vec<CameraMove> = Vec::new();
    push_if(&mut moves, keys.a, CameraMove::YawLeft);
    proof {
        assert(moves@ =~= move_if(keys.a, CameraMove::YawLeft));
    }
    push_if(&mut moves, keys.d, CameraMove::YawRight);
    push_if(&mut moves, keys.w, CameraMove::PitchUp);
    push_if(&mut moves, keys.s, CameraMove::PitchDown);
    push_if(&mut moves, keys.up, CameraMove::ZoomIn);
    push_if(&mut moves, keys.down, CameraMove::ZoomOut);
    push_if(&mut moves, keys.q || keys.left, CameraMove::PanLeft);
    push_if(&mut moves, keys.e || keys.right, CameraMove::PanRight);
    push_if(&mut moves, keys.r, CameraMove::Raise);
    push_if(&mut moves, keys.f, CameraMove::Lower);
    push_if(&mut moves, keys.z, CameraMove::Forward);
    push_if(&mut moves, keys.x, CameraMove::Back);
    proof {
        lemma_camera_moves_are_requested_moves(keys);
    }
    moves
}


/// Whether the held keys ask for move `m`: each move has its own key, and the
/// horizontal pans each have two (Q or the left arrow, E or the right arrow).
pub open spec fn move_requested(k: CameraKeys, m: CameraMove) -> bool {
    match m {
        CameraMove::YawLeft => k.a,
        CameraMove::YawRight => k.d,
        CameraMove::PitchUp => k.w,
        CameraMove::PitchDown => k.s,
        CameraMove::ZoomIn => k.up,
        CameraMove::ZoomOut => k.down,
        CameraMove::PanLeft => k.q || k.left,
        CameraMove::PanRight => k.e || k.right,
        CameraMove::Raise => k.r,
        CameraMove::Lower => k.f,
        CameraMove::Forward => k.z,
        CameraMove::Back => k.x,
    }
}

/// Position of a move in the frame's application order: rotation, zoom,
/// horizontal pan, vertical pan, forward and back.
pub open spec fn move_rank(m: CameraMove) -> int {
    match m {
        CameraMove::YawLeft => 0,
        CameraMove::YawRight => 1,
        CameraMove::PitchUp => 2,
        CameraMove::PitchDown => 3,
        CameraMove::ZoomIn => 4,
        CameraMove::ZoomOut => 5,
        CameraMove::PanLeft => 6,
        CameraMove::PanRight => 7,
        CameraMove::Raise => 8,
        CameraMove::Lower => 9,
        CameraMove::Forward => 10,
        CameraMove::Back => 11,
    }
}

/// Moves listed in strictly increasing application order (so none twice).
pub open spec fn in_move_order(s: Seq<CameraMove>) -> bool {
    forall|i: int, j: int| 0 <= i < j < s.len() ==> move_rank(#[trigger] s[i]) < move_rank(#[trigger] s[j])
}

/// `s` lists, in application order, exactly the requested moves of rank at
/// most `r`.
#[verifier::opaque]
spec fn moves_up_to(s: Seq<CameraMove>, k: CameraKeys, r: int) -> bool {
    &&& in_move_order(s)
    &&& forall|i: int| 0 <= i < s.len() ==> move_rank(#[trigger] s[i]) <= r
    &&& forall|x: CameraMove| #[trigger] s.contains(x) <==> (move_requested(k, x) && move_rank(x) <= r)
}

proof fn lemma_append_move(s: Seq<CameraMove>, k: CameraKeys, m: CameraMove, held: bool)
    requires
        moves_up_to(s, k, move_rank(m) - 1),
        held == move_requested(k, m),
    ensures
        moves_up_to(s + move_if(held, m), k, move_rank(m)),
{
    reveal(moves_up_to);
    let t = s + move_if(held, m);
    assert forall|x: CameraMove| #[trigger] t.contains(x) <==> (move_requested(k, x) && move_rank(x) <= move_rank(m)) by {
        if t.contains(x) {
            let i = choose|i: int| 0 <= i < t.len() && t[i] == x;
            if i < s.len() {
                assert(s[i] == x);
                assert(s.contains(x));
            }
        }
        if move_requested(k, x) && move_rank(x) <= move_rank(m) {
            if move_rank(x) < move_rank(m) {
                assert(s.contains(x));
                let i = choose|i: int| 0 <= i < s.len() && s[i] == x;
                assert(t[i] == x);
            } else {
                assert(x == m);
                assert(t[s.len() as int] == x);
            }
        }
    }
}

/// Camera key law: the moves of a frame are exactly the moves whose keys are
/// held — Q and the left arrow each pan left, E and the right arrow each pan
/// right — each at most once, in the fixed order rotation, zoom, horizontal
/// pan, vertical pan, forward/back.
pub proof fn lemma_camera_moves_are_requested_moves(k: CameraKeys)
    ensures
        forall|m: CameraMove| #[trigger] spec_camera_moves(k).contains(m) <==> move_requested(k, m),
        in_move_order(spec_camera_moves(k)),
{
    let p0 = Seq::<CameraMove>::empty();
    assert(moves_up_to(p0, k, -1)) by {
        reveal(moves_up_to);
    }
    lemma_append_move(p0, k, CameraMove::YawLeft, k.a);
    let p1 = p0 + move_if(k.a, CameraMove::YawLeft);
    lemma_append_move(p1, k, CameraMove::YawRight, k.d);
    let p2 = p1 + move_if(k.d, CameraMove::YawRight);
    lemma_append_move(p2, k, CameraMove::PitchUp, k.w);
    let p3 = p2 + move_if(k.w, CameraMove::PitchUp);
    lemma_append_move(p3, k, CameraMove::PitchDown, k.s);
    let p4 = p3 + move_if(k.s, CameraMove::PitchDown);
    lemma_append_move(p4, k, CameraMove::ZoomIn, k.up);
    let p5 = p4 + move_if(k.up, CameraMove::ZoomIn);
    lemma_append_move(p5, k, CameraMove::ZoomOut, k.down);
    let p6 = p5 + move_if(k.down, CameraMove::ZoomOut);
    lemma_append_move(p6, k, CameraMove::PanLeft, k.q || k.left);
    let p7 = p6 + move_if(k.q || k.left, CameraMove::PanLeft);
    lemma_append_move(p7, k, CameraMove::PanRight, k.e || k.right);
    let p8 = p7 + move_if(k.e || k.right, CameraMove::PanRight);
    lemma_append_move(p8, k, CameraMove::Raise, k.r);
    let p9 = p8 + move_if(k.r, CameraMove::Raise);
    lemma_append_move(p9, k, CameraMove::Lower, k.f);
    let p10 = p9 + move_if(k.f, CameraMove::Lower);
    lemma_append_move(p10, k, CameraMove::Forward, k.z);
    let p11 = p10 + move_if(k.z, CameraMove::Forward);
    lemma_append_move(p11, k, CameraMove::Back, k.x);
    let p12 = p11 + move_if(k.x, CameraMove::Back);
    assert(p12 == spec_camera_moves(k));
    reveal(moves_up_to);
}

} // verus!
