//! Option formatting: turning candidate paths into the labels shown by the
//! interactive picker, and coloring the labels of live or attached sessions.

use vstd::prelude::*;

use crate::text::split_on;
use crate::text::split_string;

verus! {

/// The non-empty segments of `parts`, in order: repeated or trailing path
/// separators contribute empty segments, which a path's components ignore.
pub open spec fn nonempty_segments(parts: Seq<Seq<char>>) -> Seq<Seq<char>>
    decreases parts.len(),
{
    if parts.len() == 0 {
        Seq::empty()
    } else {
        let init = nonempty_segments(parts.drop_last());
        if parts.last().len() > 0 {
            init.push(parts.last())
        } else {
            init
        }
    }
}

/// The components of a path: its non-empty `/`-separated segments.
pub open spec fn path_components(path: Seq<char>) -> Seq<Seq<char>> {
    nonempty_segments(split_on(path, '/'))
}

/// The label shown for a candidate path: the name of its parent directory,
/// a slash, and its final component.
pub open spec fn display_label(path: Seq<char>) -> Seq<char> {
    let c = path_components(path);
    c[c.len() - 2] + seq!['/'] + c[c.len() - 1]
}

/// The non-empty `/`-separated components of `path`, in order.
pub fn components_of_path(path: &str) -> (components: Vec<String>)
    ensures
        components.deep_view() == path_components(path@),
{
    let parts = split_string(path, '/');
    let mut components: Vec<String> = Vec::new();
    let mut i: usize = 0;
    proof {
        assert(parts.deep_view().subrange(0, 0) =~= Seq::<Seq<char>>::empty());
        assert(components.deep_view() =~~= nonempty_segments(parts.deep_view().subrange(0, 0)));
    }
    while i < parts.len()
        invariant
            i <= parts@.len(),
            components.deep_view() == nonempty_segments(parts.deep_view().subrange(0, i as int)),
        decreases parts@.len() - i,
    {
        if !parts[i].as_str().is_empty() {
            components.push(parts[i].clone());
        }
        i += 1;
        proof {
            let seen = parts.deep_view().subrange(0, i as int);
            assert(seen.drop_last() =~= parts.deep_view().subrange(0, i - 1));
            assert(components.deep_view() =~~= nonempty_segments(seen));
        }
    }
    proof {
        assert(parts.deep_view().subrange(0, parts.deep_view().len() as int) =~= parts.deep_view());
    }
    components
}

/// Builds the picker label for one candidate path.
///
/// The path must have at least two components, as a project directory that
/// sits inside a parent directory always does.
pub fn display_name(path: &str) -> (label: String)
    requires
        path_components(path@).len() >= 2,
    ensures
        label@ == display_label(path@),
{
    let components = components_of_path(path);
    let n = components.len();
    proof {
        assert(components.deep_view()[n - 2] == components@[n - 2]@);
        assert(components.deep_view()[n - 1] == components@[n - 1]@);
    }
    let label = components[n - 2].clone().concat("/").concat(components[n - 1].as_str());
    proof {
        reveal_strlit("/");
        assert("/"@ =~= seq!['/']);
    }
    label
}

/// One label per candidate path, in the same order: index `i` of the output
/// always labels index `i` of the input.
pub fn options_from_path(paths: Vec<String>) -> (options: Vec<String>)
    requires
        forall|i: int| 0 <= i < paths@.len() ==> path_components(paths@[i]@).len() >= 2,
    ensures
        options@.len() == paths@.len(),
        forall|i: int| 0 <= i < paths@.len() ==> options@[i]@ == display_label(paths@[i]@),
{
    let mut options: Vec<String> = Vec::new();
    let mut i: usize = 0;
    while i < paths.len()
        invariant
            i <= paths@.len(),
            options@.len() == i,
            forall|j: int| 0 <= j < paths@.len() ==> path_components(paths@[j]@).len() >= 2,
            forall|j: int| 0 <= j < i ==> options@[j]@ == display_label(paths@[j]@),
        decreases paths@.len() - i,
    {
        let label = display_name(paths[i].as_str());
        options.push(label);
        i += 1;
    }
    options
}

/// The color wrapper for the session attached to the invoking terminal.
pub open spec fn wrap_attached(label: Seq<char>) -> Seq<char> {
    "\u{1b}[33m"@ + label + "\u{1b}[0m"@
}

/// The color wrapper for a live but unattached session.
pub open spec fn wrap_live(label: Seq<char>) -> Seq<char> {
    "\u{1b}[34m"@ + label + "\u{1b}[0m"@
}

/// How one label is colored: the attached session's color wins, then the
/// live-session color, and any other label is left unchanged.
pub open spec fn colorize_spec(label: Seq<char>, live: Seq<Seq<char>>, attached: Seq<char>) -> Seq<
    char,
> {
    if label == attached {
        wrap_attached(label)
    } else if live.contains(label) {
        wrap_live(label)
    } else {
        label
    }
}

/// Whether `v` holds a string equal to `s`.
pub fn contains_string(v: &Vec<String>, s: &String) -> (r: bool)
    ensures
        r == v.deep_view().contains(s@),
{
    let mut i: usize = 0;
    while i < v.len()
        invariant
            i <= v@.len(),
            forall|j: int| 0 <= j < i ==> v.deep_view()[j] != s@,
        decreases v@.len() - i,
    {
        if v[i].eq(s) {
            proof {
                assert(v.deep_view()[i as int] == s@);
            }
            return true;
        }
        i += 1;
    }
    proof {
        assert(!v.deep_view().contains(s@));
    }
    false
}

/// Colors one label according to the session state it names.
pub fn colorize(label: &String, live_sessions: &Vec<String>, attached: &String) -> (r: String)
    ensures
        r@ == colorize_spec(label@, live_sessions.deep_view(), attached@),
{
    if label.eq(attached) {
        String::from_str("\u{1b}[33m").concat(label.as_str()).concat("\u{1b}[0m")
    } else if contains_string(live_sessions, label) {
        String::from_str("\u{1b}[34m").concat(label.as_str()).concat("\u{1b}[0m")
    } else {
        label.clone()
    }
}

/// Colors every label, one output label per input label, in order.
pub fn display_options_from_options(
    options: Vec<String>,
    live_sessions: &Vec<String>,
    attach_session_name: &String,
) -> (display: Vec<String>)
    ensures
        display@.len() == options@.len(),
        forall|i: int| 0 <= i < options@.len() ==> display@[i]@ == colorize_spec(
            options@[i]@,
            live_sessions.deep_view(),
            attach_session_name@,
        ),
{
    let mut display: Vec<String> = Vec::new();
    let mut i: usize = 0;
    while i < options.len()
        invariant
            i <= options@.len(),
            display@.len() == i,
            forall|j: int| 0 <= j < i ==> display@[j]@ == colorize_spec(
                options@[j]@,
                live_sessions.deep_view(),
                attach_session_name@,
            ),
        decreases options@.len() - i,
    {
        let colored = colorize(&options[i], live_sessions, attach_session_name);
        display.push(colored);
        i += 1;
    }
    display
}

/// Whether `s` has the shape of a colorized label: one of the two color
/// prefixes and the reset suffix.
pub open spec fn has_color_wrapper(s: Seq<char>) -> bool {
    s.len() >= 9 && (s.subrange(0, 5) == "\u{1b}[33m"@ || s.subrange(0, 5) == "\u{1b}[34m"@)
        && s.subrange(s.len() - 4, s.len() as int) == "\u{1b}[0m"@
}

/// The label a (possibly colorized) picker line stands for: the line with
/// its color wrapper removed, or the line itself when it has none.
pub open spec fn strip_color(s: Seq<char>) -> Seq<char> {
    if has_color_wrapper(s) {
        s.subrange(5, s.len() - 4)
    } else {
        s
    }
}

/// Coloring never changes which uncolored label a line stands for: for a
/// label that does not itself look colorized, stripping the wrapper from the
/// colored line yields the label back, whether the label was left plain,
/// colored as live, or colored as attached.
pub proof fn lemma_colorize_strip_round_trip(
    label: Seq<char>,
    live: Seq<Seq<char>>,
    attached: Seq<char>,
)
    requires
        !has_color_wrapper(label),
    ensures
        strip_color(colorize_spec(label, live, attached)) == label,
{
    reveal_strlit("\u{1b}[33m");
    reveal_strlit("\u{1b}[34m");
    reveal_strlit("\u{1b}[0m");
    let colored = colorize_spec(label, live, attached);
    if label == attached {
        assert(colored.subrange(0, 5) =~= "\u{1b}[33m"@);
        assert(colored.subrange(colored.len() - 4, colored.len() as int) =~= "\u{1b}[0m"@);
        assert(colored.subrange(5, colored.len() - 4) =~= label);
    } else if live.contains(label) {
        assert(colored.subrange(0, 5) =~= "\u{1b}[34m"@);
        assert(colored.subrange(colored.len() - 4, colored.len() as int) =~= "\u{1b}[0m"@);
        assert(colored.subrange(5, colored.len() - 4) =~= label);
    }
}

/// The attached session's color takes precedence: a label that is both live
/// and attached receives the attached color alone.
pub proof fn lemma_attached_color_precedence(
    label: Seq<char>,
    live: Seq<Seq<char>>,
    attached: Seq<char>,
)
    requires
        label == attached,
    ensures
        colorize_spec(label, live, attached) == wrap_attached(label),
{
}

} // verus!
