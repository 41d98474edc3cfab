//! The input events of a tick, and the queue that holds them until the
//! controller reads them.
use vstd::prelude::*;
use std::collections::VecDeque;

verus! {

/// How the browser measures a wheel movement.
#[derive(Clone, Copy, Debug, PartialEq, Eq, Structural)]
pub enum WheelDeltaMode {
    Pixel,
    Line,
    Page,
}

impl WheelDeltaMode {
    /// The mode of the browser's numbering: 0 pixels, 1 lines, 2 pages.
    pub fn try_from(value: u32) -> (r: Result<Self, &'static str>)
        ensures
            value == 0 ==> r == Ok::<Self, &'static str>(WheelDeltaMode::Pixel),
            value == 1 ==> r == Ok::<Self, &'static str>(WheelDeltaMode::Line),
            value == 2 ==> r == Ok::<Self, &'static str>(WheelDeltaMode::Page),
            value > 2 ==> (r matches Err(msg) && msg@ == "unknown wheel delta mode!"@),
    {
        match value {
            0 => Ok(WheelDeltaMode::Pixel),
            1 => Ok(WheelDeltaMode::Line),
            2 => Ok(WheelDeltaMode::Page),
            _ => Err("unknown wheel delta mode!"),
        }
    }
}

/// Which way the wheel turned along the vertical axis: the sign of the
/// browser's vertical delta, or that the delta is not a number.
#[derive(Clone, Copy, Debug, PartialEq, Eq, Structural)]
pub enum WheelSign {
    Positive,
    Negative,
    Zero,
    NotANumber,
}

/// The keys that the puzzle listens to.
#[derive(Clone, Copy, Debug, PartialEq, Eq, Structural)]
pub struct Key {
    pub space: bool,
}

/// What the standard library's `str::to_lowercase` returns for a string.
pub uninterp spec fn lowercase_of(s: Seq<char>) -> Seq<char>;

/// Calls `str::to_lowercase` of the standard library. Its contract says only
/// that the result is the one that this string always lowercases to.
#[verifier::external_body]
fn lowercase(s: &str) -> (r: String)
    ensures
        r@ == lowercase_of(s@),
{
    s.to_lowercase()
}

impl Key {
    /// The key of a keyboard event, by the key's name as the browser reports it.
    pub fn from_key(key: &str) -> (k: Key)
        ensures
            k.space == (lowercase_of(key@) == "space"@ || lowercase_of(key@) == "spacebar"@
                || lowercase_of(key@) == " "@),
    {
        let key_str = lowercase(key);
        Key::from_lowercase_name(&key_str)
    }

    /// The key whose name, already in lower case, is `name`: the space bar
    /// goes by "space", "spacebar" or " ".
    pub fn from_lowercase_name(name: &String) -> (k: Key)
        ensures
            k.space == (name@ == "space"@ || name@ == "spacebar"@ || name@ == " "@),
    {
        let space = *name == String::from_str("space") || *name == String::from_str("spacebar")
            || *name == String::from_str(" ");
        Key { space }
    }
}

/// One input event. Positions are canvas pixels; a delta is the change since
/// the last pointer move and a diff the change since the pointer went down.
#[derive(Clone, Copy, Debug, PartialEq, Eq, Structural)]
pub enum Input {
    PointerDown(i32, i32),
    PointerDrag(i32, i32, i32, i32, i32, i32),
    PointerHover(i32, i32),
    PointerUp(i32, i32, i32, i32, i32, i32),
    PointerClick(i32, i32),
    KeyDown(Key),
    KeyUp(Key),
    Wheel(WheelDeltaMode, WheelSign),
    ResetButton,
}

/// The kind of an input event, by its variant, numbered in the order of
/// the variants.
pub open spec fn input_kind(input: Input) -> nat {
    match input {
        Input::PointerDown(..) => 0,
        Input::PointerDrag(..) => 1,
        Input::PointerHover(..) => 2,
        Input::PointerUp(..) => 3,
        Input::PointerClick(..) => 4,
        Input::KeyDown(..) => 5,
        Input::KeyUp(..) => 6,
        Input::Wheel(..) => 7,
        Input::ResetButton => 8,
    }
}

/// The position of the first event of kind `kind` in `s`, or the length of
/// `s` when there is none.
pub open spec fn first_of_kind(s: Seq<Input>, kind: nat) -> int
    decreases s.len(),
{
    if s.len() == 0 {
        0
    } else if input_kind(s[0]) == kind {
        0
    } else {
        1 + first_of_kind(s.drop_first(), kind)
    }
}

/// The first event of kind `kind` in `s` is at `first_of_kind`, and every
/// event before it is of another kind.
pub proof fn lemma_first_of_kind(s: Seq<Input>, kind: nat)
    ensures
        0 <= first_of_kind(s, kind) <= s.len(),
        first_of_kind(s, kind) < s.len() ==> input_kind(s[first_of_kind(s, kind)]) == kind,
        forall|j: int| 0 <= j < first_of_kind(s, kind) ==> input_kind(#[trigger] s[j]) != kind,
    decreases s.len(),
{
    if s.len() > 0 && input_kind(s[0]) != kind {
        lemma_first_of_kind(s.drop_first(), kind);
        assert forall|j: int| 0 <= j < first_of_kind(s, kind) implies input_kind(#[trigger] s[j]) != kind by {
            if j > 0 {
                assert(s[j] == s.drop_first()[j - 1]);
            }
        }
    }
}

/// Whether an event is of another kind than `kind`.
pub open spec fn other_kind(kind: nat) -> spec_fn(Input) -> bool {
    |q: Input| input_kind(q) != kind
}

impl Input {
    /// The kind of this event (see `input_kind`).
    pub fn kind(&self) -> (k: u8)
        ensures
            k == input_kind(*self),
    {
        match self {
            Input::PointerDown(..) => 0,
            Input::PointerDrag(..) => 1,
            Input::PointerHover(..) => 2,
            Input::PointerUp(..) => 3,
            Input::PointerClick(..) => 4,
            Input::KeyDown(..) => 5,
            Input::KeyUp(..) => 6,
            Input::Wheel(..) => 7,
            Input::ResetButton => 8,
        }
    }
}

/// The input events of a tick, oldest first.
pub struct InputQueue(pub VecDeque<Input>);

impl InputQueue {
    /// An empty queue.
    pub fn new() -> (q: Self)
        ensures
            q.0@ == Seq::<Input>::empty(),
    {
        InputQueue(VecDeque::new())
    }

    /// Queues an event in place of the first queued event of the same kind,
    /// or at the end when none is queued: of a run of moves in one tick only
    /// the latest position counts, while an event of another kind that came
    /// in between keeps its place before it.
    pub fn insert_replace(&mut self, input: Input)
        ensures
            ({
                let f = first_of_kind(old(self).0@, input_kind(input));
                if f < old(self).0@.len() {
                    final(self).0@ == old(self).0@.update(f, input)
                } else {
                    final(self).0@ == old(self).0@.push(input)
                }
            }),
    {
        proof {
            lemma_first_of_kind(old(self).0@, input_kind(input));
        }
        let kind = Input::kind(&input);
        let n = self.0.len();
        let mut i: usize = 0;
        while i < n
            invariant
                n == self.0@.len(),
                self.0@ == old(self).0@,
                kind == input_kind(input),
                i <= n,
                forall|j: int| 0 <= j < i ==> input_kind(#[trigger] self.0@[j]) != kind,
            decreases n - i,
        {
            if Input::kind(&self.0[i]) == kind {
                proof {
                    lemma_first_of_kind(old(self).0@, kind as nat);
                    let f = first_of_kind(old(self).0@, kind as nat);
                    if f < i {
                        assert(input_kind(self.0@[f]) != kind);
                    }
                    if f > i {
                        assert(input_kind(old(self).0@[i as int]) != kind);
                    }
                }
                self.0.remove(i);
                self.0.insert(i, input);
                assert(self.0@ =~= old(self).0@.update(i as int, input));
                return;
            }
            i = i + 1;
        }
        self.0.push_back(input);
    }

    /// Takes every queued event of the same kind out, and queues the event
    /// at the end.
    fn _insert_move(&mut self, input: Input)
        ensures
            final(self).0@ == old(self).0@.filter(other_kind(input_kind(input))).push(input),
    {
        let kind = Input::kind(&input);
        let ghost keep = other_kind(kind as nat);
        let n = self.0.len();
        let mut kept: VecDeque<Input> = VecDeque::new();
        let mut i: usize = 0;
        assert(self.0@.take(0).filter(keep) =~= Seq::<Input>::empty()) by {
            reveal_with_fuel(Seq::filter, 1);
        }
        while i < n
            invariant
                n == self.0@.len(),
                self.0@ == old(self).0@,
                kind == input_kind(input),
                keep == other_kind(kind as nat),
                i <= n,
                kept@ == self.0@.take(i as int).filter(keep),
            decreases n - i,
        {
            let next = self.0[i];
            assert(self.0@.take(i + 1).drop_last() =~= self.0@.take(i as int));
            assert(self.0@.take(i + 1).last() == next);
            proof {
                reveal_with_fuel(Seq::filter, 1);
            }
            if Input::kind(&next) != kind {
                kept.push_back(next);
            }
            i = i + 1;
        }
        assert(self.0@.take(n as int) =~= self.0@);
        self.0 = kept;
        self.0.push_back(input);
    }

    /// Queues an event at the end, after every event already queued.
    pub fn insert_always(&mut self, input: Input)
        ensures
            final(self).0@ == old(self).0@.push(input),
    {
        self.0.push_back(input);
    }

    /// Takes every queued event out, in the order they were queued.
    pub fn take_all(&mut self) -> (inputs: Vec<Input>)
        ensures
            inputs@ == old(self).0@,
            final(self).0@ == Seq::<Input>::empty(),
    {
        let ghost orig = self.0@;
        let mut out: Vec<Input> = Vec::new();
        while self.0.len() > 0
            invariant
                out@ + self.0@ == orig,
            decreases self.0@.len(),
        {
            let next = self.0.pop_front();
            match next {
                Some(input) => {
                    out.push(input);
                    assert(out@ + self.0@ =~= orig);
                },
                None => {},
            }
        }
        assert(out@ =~= orig);
        out
    }
}

} // verus!
