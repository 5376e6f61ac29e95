//! Output formatting: rendering the open stack as a folded-stack prefix and
//! numbers as decimal text.

use vstd::prelude::*;
use crate::event::{Event, EventModel};

verus! {

/// The folded rendering of one open frame: `;probe_name:filename:location`.
pub open spec fn frame_label(e: EventModel) -> Seq<char> {
    seq![';'] + e.probe_name + seq![':'] + e.filename + seq![':'] + e.location
}

/// The folded rendering of a whole stack: the labels of its frames in stack
/// order, outermost (bottom) first, innermost (top) last.
pub open spec fn render_stack(s: Seq<EventModel>) -> Seq<char>
    decreases s.len(),
{
    if s.len() == 0 {
        Seq::empty()
    } else {
        frame_label(s[0]) + render_stack(s.skip(1))
    }
}

pub proof fn lemma_render_stack_snoc(s: Seq<EventModel>)
    requires
        s.len() > 0,
    ensures
        render_stack(s) == render_stack(s.drop_last()) + frame_label(s.last()),
    decreases s.len(),
{
    if s.len() == 1 {
        assert(s.skip(1) =~= Seq::<EventModel>::empty());
        assert(s.drop_last() =~= Seq::<EventModel>::empty());
        assert(render_stack(s) =~= render_stack(s.drop_last()) + frame_label(s.last()));
    } else {
        lemma_render_stack_snoc(s.skip(1));
        assert(s.skip(1).drop_last() =~= s.drop_last().skip(1));
        assert(s.skip(1).last() == s.last());
        assert(s.drop_last()[0] == s[0]);
        assert(render_stack(s) =~= render_stack(s.drop_last()) + frame_label(s.last()));
    }
}

/// Renders every open frame of `stack`, outermost first, each frame as
/// `;probe_name:filename:location` with no separator between frames beyond
/// each label's leading `;`.
pub fn print_stack_names(stack: &Vec<Event>) -> (r: String)
    ensures
        r@ == render_stack(stack.deep_view()),
{
    let ghost dv = stack.deep_view();
    let mut names_str = String::new();
    proof {
        assert(dv.take(0) =~= Seq::<EventModel>::empty());
    }
    let mut i: usize = 0;
    while i < stack.len()
        invariant
            i <= stack.len(),
            dv == stack.deep_view(),
            names_str@ == render_stack(dv.take(i as int)),
        decreases stack.len() - i,
    {
        let event = &stack[i];
        names_str.append(";");
        names_str.append(event.probe_name.as_str());
        names_str.append(":");
        names_str.append(event.filename.as_str());
        names_str.append(":");
        names_str.append(event.location.as_str());
        proof {
            reveal_strlit(";");
            reveal_strlit(":");
            assert(";"@ =~= seq![';']);
            assert(":"@ =~= seq![':']);
            assert(dv.take(i + 1).drop_last() =~= dv.take(i as int));
            assert(dv.take(i + 1).last() == dv[i as int]);
            lemma_render_stack_snoc(dv.take(i + 1));
            assert(names_str@ =~= render_stack(dv.take(i + 1)));
        }
        i = i + 1;
    }
    proof {
        assert(dv.take(stack.len() as int) =~= dv);
    }
    names_str
}

/// The decimal digit character for a value below ten.
pub open spec fn dec_digit(d: int) -> char {
    if d == 0 {
        '0'
    } else if d == 1 {
        '1'
    } else if d == 2 {
        '2'
    } else if d == 3 {
        '3'
    } else if d == 4 {
        '4'
    } else if d == 5 {
        '5'
    } else if d == 6 {
        '6'
    } else if d == 7 {
        '7'
    } else if d == 8 {
        '8'
    } else {
        '9'
    }
}

/// The usual decimal rendering of a natural number, without sign or leading
/// zeros (`0` itself renders as `"0"`).
pub open spec fn dec_string(n: nat) -> Seq<char>
    decreases n,
{
    if n < 10 {
        seq![dec_digit(n as int)]
    } else {
        dec_string(n / 10) + seq![dec_digit((n % 10) as int)]
    }
}

fn digit_str(d: u64) -> (r: &'static str)
    requires
        d < 10,
    ensures
        r@ == seq![dec_digit(d as int)],
{
    let r: &'static str = if d == 0 {
        "0"
    } else if d == 1 {
        "1"
    } else if d == 2 {
        "2"
    } else if d == 3 {
        "3"
    } else if d == 4 {
        "4"
    } else if d == 5 {
        "5"
    } else if d == 6 {
        "6"
    } else if d == 7 {
        "7"
    } else if d == 8 {
        "8"
    } else {
        "9"
    };
    proof {
        reveal_strlit("0");
        reveal_strlit("1");
        reveal_strlit("2");
        reveal_strlit("3");
        reveal_strlit("4");
        reveal_strlit("5");
        reveal_strlit("6");
        reveal_strlit("7");
        reveal_strlit("8");
        reveal_strlit("9");
        assert(r@ =~= seq![dec_digit(d as int)]);
    }
    r
}

/// Renders an unsigned 64-bit value in decimal.
pub fn u64_to_string(n: u64) -> (r: String)
    ensures
        r@ == dec_string(n as nat),
    decreases n,
{
    if n < 10 {
        String::from_str(digit_str(n))
    } else {
        let prefix = u64_to_string(n / 10);
        let r = prefix.concat(digit_str(n % 10));
        proof {
            assert(r@ =~= dec_string(n as nat));
        }
        r
    }
}

} // verus!
