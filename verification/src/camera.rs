use vstd::prelude::*;

verus! {

/// The keys that move the free camera.
#[derive(Debug, PartialEq, Eq, Structural, Clone, Copy)]
pub enum CameraKey {
    W,
    S,
    D,
    A,
    Space,
    LCtrl,
    Other,
}

/// A movement of the free camera.
#[derive(Debug, PartialEq, Eq, Structural, Clone, Copy)]
pub enum CameraMove {
    Forward,
    Backward,
    Right,
    Left,
    Up,
    Down,
}

/// The movements for the pressed keys, in the order in which they are
/// applied: forward (W), backward (S), right (D), left (A), up (Space),
/// down (left Ctrl), each once where its key is pressed.
pub open spec fn camera_moves_for(keys: Seq<CameraKey>) -> Seq<CameraMove> {
    (if keys.contains(CameraKey::W) { seq![CameraMove::Forward] } else { Seq::empty() }) + (if keys.contains(CameraKey::S) {
        seq![CameraMove::Backward]
    } else {
        Seq::empty()
    }) + (if keys.contains(CameraKey::D) { seq![CameraMove::Right] } else { Seq::empty() }) + (
    if keys.contains(CameraKey::A) {
        seq![CameraMove::Left]
    } else {
        Seq::empty()
    }) + (if keys.contains(CameraKey::Space) { seq![CameraMove::Up] } else { Seq::empty() }) + (
    if keys.contains(CameraKey::LCtrl) {
        seq![CameraMove::Down]
    } else {
        Seq::empty()
    })
}

fn key_pressed(keys: &Vec<CameraKey>, key: CameraKey) -> (r: bool)
    ensures
        r == keys@.contains(key),
{
    let mut i: usize = 0;
    while i < keys.len()
        invariant
            i <= keys@.len(),
            forall|j: int| 0 <= j < i ==> keys@[j] != key,
        decreases keys@.len() - i,
    {
        if keys[i] == key {
            assert(keys@[i as int] == key);
            return true;
        }
        i = i + 1;
    }
    false
}

/// The movements a frame applies for the pressed keys.
pub fn camera_moves(keys: &Vec<CameraKey>) -> (r: Vec<CameraMove>)
    ensures
        r@ == camera_moves_for(keys@),
{
    let mut moves: Vec<CameraMove> = Vec::new();
    let ghost k = keys@;
    if key_pressed(keys, CameraKey::W) {
        moves.push(CameraMove::Forward);
    }
    let ghost m1 = moves@;
    if key_pressed(keys, CameraKey::S) {
        moves.push(CameraMove::Backward);
    }
    let ghost m2 = moves@;
    if key_pressed(keys, CameraKey::D) {
        moves.push(CameraMove::Right);
    }
    let ghost m3 = moves@;
    if key_pressed(keys, CameraKey::A) {
        moves.push(CameraMove::Left);
    }
    let ghost m4 = moves@;
    if key_pressed(keys, CameraKey::Space) {
        moves.push(CameraMove::Up);
    }
    let ghost m5 = moves@;
    if key_pressed(keys, CameraKey::LCtrl) {
        moves.push(CameraMove::Down);
    }
    assert(m1 =~= (if k.contains(CameraKey::W) { seq![CameraMove::Forward] } else { Seq::empty() }));
    assert(m2 =~= m1 + (if k.contains(CameraKey::S) { seq![CameraMove::Backward] } else { Seq::empty() }));
    assert(m3 =~= m2 + (if k.contains(CameraKey::D) { seq![CameraMove::Right] } else { Seq::empty() }));
    assert(m4 =~= m3 + (if k.contains(CameraKey::A) { seq![CameraMove::Left] } else { Seq::empty() }));
    assert(m5 =~= m4 + (if k.contains(CameraKey::Space) { seq![CameraMove::Up] } else { Seq::empty() }));
    assert(moves@ =~= m5 + (if k.contains(CameraKey::LCtrl) { seq![CameraMove::Down] } else { Seq::empty() }));
    moves
}

proof fn lemma_append_move(s: Seq<CameraMove>, pressed: bool, x: CameraMove, t: Seq<CameraMove>)
    requires
        s.no_duplicates(),
        !s.contains(x),
        t == s + (if pressed { seq![x] } else { Seq::empty() }),
    ensures
        t.no_duplicates(),
        forall|y: CameraMove| #[trigger] t.contains(y) <==> (s.contains(y) || (pressed && y == x)),
{
    if pressed {
        assert(t =~= s.push(x));
        assert forall|y: CameraMove| t.contains(y) <==> (s.contains(y) || y == x) by {
            if t.contains(y) {
                let k = choose|k: int| 0 <= k < t.len() && t[k] == y;
                if k < s.len() {
                    assert(s[k] == y);
                }
            }
            if s.contains(y) {
                let k = choose|k: int| 0 <= k < s.len() && s[k] == y;
                assert(t[k] == y);
            }
            if y == x {
                assert(t[s.len() as int] == x);
            }
        }
        assert forall|a: int, b: int| 0 <= a < t.len() && 0 <= b < t.len() && a != b implies t[a]
            != t[b] by {
            if a < s.len() && b == s.len() {
                assert(s.contains(t[a]));
            }
            if b < s.len() && a == s.len() {
                assert(s.contains(t[b]));
            }
        }
    } else {
        assert(t =~= s);
    }
}

/// Each movement is made exactly when its key is pressed, and at most once:
/// W forward, S backward, D right, A left, Space up, left Ctrl down.
pub proof fn law_each_key_moves_its_way(keys: Seq<CameraKey>)
    ensures
        camera_moves_for(keys).contains(CameraMove::Forward) <==> keys.contains(CameraKey::W),
        camera_moves_for(keys).contains(CameraMove::Backward) <==> keys.contains(CameraKey::S),
        camera_moves_for(keys).contains(CameraMove::Right) <==> keys.contains(CameraKey::D),
        camera_moves_for(keys).contains(CameraMove::Left) <==> keys.contains(CameraKey::A),
        camera_moves_for(keys).contains(CameraMove::Up) <==> keys.contains(CameraKey::Space),
        camera_moves_for(keys).contains(CameraMove::Down) <==> keys.contains(CameraKey::LCtrl),
        camera_moves_for(keys).no_duplicates(),
{
    let m0 = Seq::<CameraMove>::empty();
    let m1 = m0 + (if keys.contains(CameraKey::W) { seq![CameraMove::Forward] } else { Seq::empty() });
    let m2 = m1 + (if keys.contains(CameraKey::S) { seq![CameraMove::Backward] } else { Seq::empty() });
    let m3 = m2 + (if keys.contains(CameraKey::D) { seq![CameraMove::Right] } else { Seq::empty() });
    let m4 = m3 + (if keys.contains(CameraKey::A) { seq![CameraMove::Left] } else { Seq::empty() });
    let m5 = m4 + (if keys.contains(CameraKey::Space) { seq![CameraMove::Up] } else { Seq::empty() });
    let m6 = m5 + (if keys.contains(CameraKey::LCtrl) { seq![CameraMove::Down] } else { Seq::empty() });
    assert(!m0.contains(CameraMove::Forward));
    lemma_append_move(m0, keys.contains(CameraKey::W), CameraMove::Forward, m1);
    lemma_append_move(m1, keys.contains(CameraKey::S), CameraMove::Backward, m2);
    lemma_append_move(m2, keys.contains(CameraKey::D), CameraMove::Right, m3);
    lemma_append_move(m3, keys.contains(CameraKey::A), CameraMove::Left, m4);
    lemma_append_move(m4, keys.contains(CameraKey::Space), CameraMove::Up, m5);
    lemma_append_move(m5, keys.contains(CameraKey::LCtrl), CameraMove::Down, m6);
    assert(m1 =~= (if keys.contains(CameraKey::W) { seq![CameraMove::Forward] } else { Seq::empty() }));
    assert(m6 == camera_moves_for(keys));
}

} // verus!
