//! Building the class-list and inline-style strings of a styled pane.

use vstd::prelude::*;
use vstd::string::*;
use crate::classes::names_view;

verus! {

/// The given pieces joined with single spaces.
pub open spec fn join_spaced(items: Seq<Seq<char>>) -> Seq<char>
    decreases items.len(),
{
    if items.len() == 0 {
        Seq::empty()
    } else if items.len() == 1 {
        items[0]
    } else {
        join_spaced(items.drop_last()) + " "@ + items.last()
    }
}

/// One `attribute: value;` declaration per property pair.
pub open spec fn css_items(css: Seq<(String, String)>) -> Seq<Seq<char>> {
    css.map_values(|p: (String, String)| p.0@ + ": "@ + p.1@ + ";"@)
}

/// Joins CSS class names with spaces.
pub(crate) fn join_classes(items: &Vec<String>) -> (r: String)
    ensures
        r@ == join_spaced(names_view(items@)),
{
    let mut out = String::new();
    let n = items.len();
    let mut i: usize = 0;
    while i < n
        invariant
            n == items.len(),
            i <= n,
            out@ == join_spaced(names_view(items@).take(i as int)),
        decreases n - i,
    {
        if i > 0 {
            out.append(" ");
        }
        out.append(items[i].as_str());
        proof {
            let s = names_view(items@);
            assert(s.take(i + 1).drop_last() =~= s.take(i as int));
            assert(s.take(i + 1).last() == s[i as int]);
            if i == 0 {
                assert(out@ =~= s.take(1)[0]);
            }
            assert(out@ =~= join_spaced(s.take(i + 1)));
        }
        i += 1;
    }
    proof {
        assert(names_view(items@).take(n as int) =~= names_view(items@));
    }
    out
}

/// Renders CSS property pairs as `attribute: value;` declarations joined
/// with spaces.
pub(crate) fn join_css(css: &Vec<(String, String)>) -> (r: String)
    ensures
        r@ == join_spaced(css_items(css@)),
{
    let mut out = String::new();
    let n = css.len();
    let mut i: usize = 0;
    while i < n
        invariant
            n == css.len(),
            i <= n,
            out@ == join_spaced(css_items(css@).take(i as int)),
        decreases n - i,
    {
        if i > 0 {
            out.append(" ");
        }
        out.append(css[i].0.as_str());
        out.append(": ");
        out.append(css[i].1.as_str());
        out.append(";");
        proof {
            let s = css_items(css@);
            assert(s[i as int] == css@[i as int].0@ + ": "@ + css@[i as int].1@ + ";"@);
            assert(s.take(i + 1).drop_last() =~= s.take(i as int));
            assert(s.take(i + 1).last() == s[i as int]);
            if i == 0 {
                assert(out@ =~= s.take(1)[0]);
            }
            assert(out@ =~= join_spaced(s.take(i + 1)));
        }
        i += 1;
    }
    proof {
        assert(css_items(css@).take(n as int) =~= css_items(css@));
    }
    out
}

} // verus!
