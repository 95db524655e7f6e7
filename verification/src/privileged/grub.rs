//! A custom GRUB menu background: what is checked before anything is touched, how GRUB's
//! defaults are edited, and the course of applying and of undoing it.

use vstd::prelude::*;

use crate::paths::{join_path, joined_path};
use crate::privileged::constants::{
    GRUB2_MKCONFIG, GRUB_CFG_CANDIDATES, GRUB_MKCONFIG, UPDATE_GRUB,
};
use crate::privileged::messages::{fail, fail_quoting, failure, quoting};
use crate::protocol::base64_lite::{decode, encoding};
use crate::protocol::grub_splash::{
    extension_supported, loadable, EXTENSIONS, MARKER, MAX_IMAGE_BYTES,
};
use crate::text::{
    cat3, chars_of, contains, is_whitespace, join, joined, lemma_lines_of_line, lines, lines_from,
    lines_of, occurs, outcome, same, stands_at, starts_with, string_between, text_of, texts,
    trim_front, without_return,
};

verus! {

// ---------------------------------------------------------------------------
// Where GRUB lives
// ---------------------------------------------------------------------------

/// A path without trailing separators and without trailing `.` components.
pub open spec fn stripped_back(path: Seq<char>) -> Seq<char>
    decreases path.len(),
{
    if path.len() > 1 && path.last() == '/' {
        stripped_back(path.drop_last())
    } else if path.len() >= 2 && path.last() == '.' && path[path.len() - 2] == '/' {
        stripped_back(path.drop_last())
    } else {
        path
    }
}

/// The place behind the last separator.
pub open spec fn name_start(path: Seq<char>) -> int
    decreases path.len(),
{
    if path.len() == 0 || path.last() == '/' {
        path.len() as int
    } else {
        name_start(path.drop_last())
    }
}

/// The directory that a path lies in, by its text alone; `None` for the root and for an
/// empty path.
pub open spec fn parent_of(path: Seq<char>) -> Option<Seq<char>> {
    let t = stripped_back(path);
    if t.len() == 0 || t == "/"@ {
        None
    } else {
        Some(stripped_back(t.take(name_start(t))))
    }
}

proof fn lemma_name_start(path: Seq<char>)
    ensures
        0 <= name_start(path) <= path.len(),
    decreases path.len(),
{
    if path.len() > 0 && path.last() != '/' {
        lemma_name_start(path.drop_last());
    }
}

fn strip_back(v: &Vec<char>, end: usize) -> (r: usize)
    requires
        end <= v@.len(),
    ensures
        r <= end,
        stripped_back(v@.take(end as int)) == v@.take(r as int),
{
    let mut n: usize = end;
    while n >= 2 && (v[n - 1] == '/' || (v[n - 1] == '.' && v[n - 2] == '/'))
        invariant
            n <= end <= v@.len(),
            stripped_back(v@.take(end as int)) == stripped_back(v@.take(n as int)),
        decreases n,
    {
        proof {
            let t = v@.take(n as int);
            assert(t.last() == v@[n - 1]);
            assert(t[n - 2] == v@[n - 2]);
            assert(t.drop_last() == v@.take(n - 1));
        }
        n = n - 1;
    }
    proof {
        let t = v@.take(n as int);
        if n >= 1 {
            assert(t.last() == v@[n - 1]);
        }
        if n >= 2 {
            assert(t[n - 2] == v@[n - 2]);
        }
        assert(stripped_back(t) == t);
    }
    n
}

/// The directory that a path lies in, by its text alone.
pub fn parent(path: &str) -> (r: Option<String>)
    ensures
        text_of(r) == parent_of(path@),
{
    let v = chars_of(path);
    assert(v@.take(v@.len() as int) == v@);
    let n: usize = strip_back(&v, v.len());
    let ghost t = v@.take(n as int);
    proof {
        reveal_strlit("/");
        if n == 1 && v@[0] == '/' {
            assert(t == "/"@);
        }
        if t == "/"@ {
            assert(t.len() == 1);
            assert(t[0] == '/');
        }
    }
    if n == 0 || (n == 1 && v[0] == '/') {
        return None;
    }
    let mut k: usize = n;
    while k > 0 && v[k - 1] != '/'
        invariant
            k <= n <= v@.len(),
            name_start(v@.take(n as int)) == name_start(v@.take(k as int)),
        decreases k,
    {
        proof {
            let u = v@.take(k as int);
            assert(u.last() == v@[k - 1]);
            assert(u.drop_last() == v@.take(k - 1));
        }
        k = k - 1;
    }
    proof {
        let u = v@.take(k as int);
        if k > 0 {
            assert(u.last() == v@[k - 1]);
        }
        assert(name_start(u) == k);
        assert(t.take(k as int) == u);
    }
    let m: usize = strip_back(&v, k);
    let out = string_between(&v, 0, m);
    assert(out@ == v@.take(m as int));
    Some(out)
}

/// The root of the file system that a sysfs tree is mounted in: the directory it lies in,
/// or `/` where it lies in none.
pub open spec fn fs_root(sysfs: Seq<char>) -> Seq<char> {
    match parent_of(sysfs) {
        Some(root) => root,
        None => "/"@,
    }
}

/// The root of the file system that a sysfs tree is mounted in.
pub fn grub_fs_root(sysfs: &str) -> (r: String)
    ensures
        r@ == fs_root(sysfs@),
{
    match parent(sysfs) {
        Some(root) => root,
        None => "/".to_owned(),
    }
}

/// What is known of this system's GRUB.
pub struct GrubFacts {
    /// Whether each of the places where `grub.cfg` may be holds a file.
    pub debian_cfg: bool,
    pub fedora_cfg: bool,
    /// Which of the generators are installed.
    pub update_grub: bool,
    pub grub2_mkconfig: bool,
    pub grub_mkconfig: bool,
}

/// Where GRUB lives and how it is regenerated.
#[derive(Debug)]
pub struct GrubLayout {
    pub cfg_path: String,
    pub program: String,
    pub args: Vec<String>,
}

/// The generated configuration, if there is one.
pub open spec fn cfg_of(root: Seq<char>, facts: GrubFacts) -> Option<Seq<char>> {
    if facts.debian_cfg {
        Some(joined_path(root, "boot/grub/grub.cfg"@))
    } else if facts.fedora_cfg {
        Some(joined_path(root, "boot/grub2/grub.cfg"@))
    } else {
        None
    }
}

/// The generator and its arguments. `update-grub` knows its own output; the other two have
/// to be told.
pub open spec fn generator_of(facts: GrubFacts, cfg: Seq<char>) -> Option<
    (Seq<char>, Seq<Seq<char>>),
> {
    if facts.update_grub {
        Some((UPDATE_GRUB@, seq![]))
    } else if facts.grub2_mkconfig {
        Some((GRUB2_MKCONFIG@, seq!["-o"@, cfg]))
    } else if facts.grub_mkconfig {
        Some((GRUB_MKCONFIG@, seq!["-o"@, cfg]))
    } else {
        None
    }
}

/// The error where there is no `grub.cfg`.
pub open spec fn no_grub() -> Seq<char> {
    failure(
        "GRUB not detected on this system (no grub.cfg under /boot/grub or /boot/grub2)"@,
    )
}

/// The error where there is no generator.
pub open spec fn no_generator() -> Seq<char> {
    failure(
        "GRUB config generator not found (checked update-grub, grub2-mkconfig, grub-mkconfig)"@,
    )
}

/// Finds where GRUB lives on this system and how to regenerate it.
pub fn detect_grub(root: &str, facts: &GrubFacts) -> (r: Result<GrubLayout, String>)
    ensures
        match r {
            Ok(layout) => cfg_of(root@, *facts) == Some(layout.cfg_path@) && generator_of(
                *facts,
                layout.cfg_path@,
            ) == Some((layout.program@, texts(layout.args@))),
            Err(e) => match cfg_of(root@, *facts) {
                None => e@ == no_grub(),
                Some(cfg) => generator_of(*facts, cfg) is None && e@ == no_generator(),
            },
        },
{
    let cfg_path = if facts.debian_cfg {
        join_path(root, GRUB_CFG_CANDIDATES[0])
    } else if facts.fedora_cfg {
        join_path(root, GRUB_CFG_CANDIDATES[1])
    } else {
        return Err(
            fail("GRUB not detected on this system (no grub.cfg under /boot/grub or /boot/grub2)"),
        );
    };
    if facts.update_grub {
        let args: Vec<String> = Vec::new();
        assert(texts(args@) == Seq::<Seq<char>>::empty());
        return Ok(GrubLayout { cfg_path, program: UPDATE_GRUB.to_owned(), args });
    }
    let mut args: Vec<String> = Vec::new();
    args.push("-o".to_owned());
    args.push(cfg_path.clone());
    assert(texts(args@) == seq!["-o"@, cfg_path@]);
    if facts.grub2_mkconfig {
        return Ok(GrubLayout { cfg_path, program: GRUB2_MKCONFIG.to_owned(), args });
    }
    if facts.grub_mkconfig {
        return Ok(GrubLayout { cfg_path, program: GRUB_MKCONFIG.to_owned(), args });
    }
    Err(fail("GRUB config generator not found (checked update-grub, grub2-mkconfig, grub-mkconfig)"))
}

// ---------------------------------------------------------------------------
// GRUB's defaults
// ---------------------------------------------------------------------------

/// A text without leading hash signs.
pub open spec fn without_hashes(s: Seq<char>) -> Seq<char>
    decreases s.len(),
{
    if s.len() > 0 && s[0] == '#' {
        without_hashes(s.drop_first())
    } else {
        s
    }
}

/// Whether a line sets a background, commented out or not, and carries the marker.
pub open spec fn is_managed(line: Seq<char>, marker: Seq<char>) -> bool {
    &&& stands_at(trim_front(without_hashes(trim_front(line))), "GRUB_BACKGROUND="@, 0)
    &&& occurs(line, marker)
}

/// The lines that are not managed, in order.
pub open spec fn unmanaged(all: Seq<Seq<char>>, marker: Seq<char>) -> Seq<Seq<char>>
    decreases all.len(),
{
    if all.len() == 0 {
        seq![]
    } else {
        let before = unmanaged(all.drop_last(), marker);
        if is_managed(all.last(), marker) {
            before
        } else {
            before.push(all.last())
        }
    }
}

/// GRUB's defaults without the managed background line; every other line stays, in order.
pub open spec fn stripped(content: Seq<char>, marker: Seq<char>) -> Seq<char> {
    joined(unmanaged(lines_of(content), marker), "\n"@).push('\n')
}

/// The line that sets the background.
pub open spec fn background_line(splash_path: Seq<char>) -> Seq<char> {
    "GRUB_BACKGROUND=\""@ + splash_path + "\""@
}

/// GRUB's defaults with this background and no other managed one.
pub open spec fn with_background(
    content: Seq<char>,
    marker: Seq<char>,
    splash_path: Seq<char>,
) -> Seq<char> {
    stripped(content, marker) + background_line(splash_path) + "\n"@
}

fn managed(line: &str, marker: &str) -> (r: bool)
    ensures
        r == is_managed(line@, marker@),
{
    let v = chars_of(line);
    let n: usize = v.len();
    let mut i: usize = 0;
    assert(v@.skip(0) == v@);
    while i < n && is_whitespace(v[i])
        invariant
            i <= n == v@.len(),
            trim_front(v@) == trim_front(v@.skip(i as int)),
        decreases n - i,
    {
        assert(v@.skip(i as int)[0] == v@[i as int]);
        assert(v@.skip(i as int).drop_first() == v@.skip(i + 1));
        i = i + 1;
    }
    proof {
        if i < n {
            assert(v@.skip(i as int)[0] == v@[i as int]);
        }
        assert(trim_front(v@) == v@.skip(i as int));
    }
    let ghost first = v@.skip(i as int);
    let mut j: usize = i;
    assert(first.skip(0) == first);
    while j < n && v[j] == '#'
        invariant
            i <= j <= n == v@.len(),
            without_hashes(first) == without_hashes(v@.skip(j as int)),
        decreases n - j,
    {
        assert(v@.skip(j as int)[0] == v@[j as int]);
        assert(v@.skip(j as int).drop_first() == v@.skip(j + 1));
        j = j + 1;
    }
    proof {
        if j < n {
            assert(v@.skip(j as int)[0] == v@[j as int]);
        }
        assert(without_hashes(first) == v@.skip(j as int));
    }
    let ghost second = v@.skip(j as int);
    let mut k: usize = j;
    while k < n && is_whitespace(v[k])
        invariant
            j <= k <= n == v@.len(),
            trim_front(second) == trim_front(v@.skip(k as int)),
        decreases n - k,
    {
        assert(v@.skip(k as int)[0] == v@[k as int]);
        assert(v@.skip(k as int).drop_first() == v@.skip(k + 1));
        k = k + 1;
    }
    proof {
        if k < n {
            assert(v@.skip(k as int)[0] == v@[k as int]);
        }
        assert(trim_front(second) == v@.skip(k as int));
    }
    let rest = string_between(&v, k, n);
    assert(rest@ == v@.skip(k as int));
    starts_with(rest.as_str(), "GRUB_BACKGROUND=") && contains(line, marker)
}

/// GRUB's defaults without the managed background line.
pub fn strip_managed_background_line(content: &str, marker: &str) -> (r: String)
    ensures
        r@ == stripped(content@, marker@),
{
    let all = lines(content);
    let mut kept: Vec<String> = Vec::new();
    let mut i: usize = 0;
    let ghost t = texts(all@);
    assert(texts(kept@) == unmanaged(t.take(0), marker@));
    while i < all.len()
        invariant
            i <= all@.len(),
            t == texts(all@),
            texts(kept@) == unmanaged(t.take(i as int), marker@),
        decreases all@.len() - i,
    {
        let ghost u = t.take(i + 1);
        assert(u.drop_last() == t.take(i as int));
        assert(u.last() == all@[i as int]@);
        if !managed(all[i].as_str(), marker) {
            let ghost before = texts(kept@);
            let line = all[i].clone();
            kept.push(line);
            assert(texts(kept@) == before.push(line@));
        }
        i = i + 1;
    }
    assert(t.take(i as int) == t);
    let mut out = join(&kept, "\n");
    out.push('\n');
    out
}

/// GRUB's defaults with this background and no other managed one.
pub fn upsert_background_line(content: &str, marker: &str, splash_path: &str) -> (r: String)
    ensures
        r@ == with_background(content@, marker@, splash_path@),
{
    let mut out = strip_managed_background_line(content, marker);
    let line = cat3("GRUB_BACKGROUND=\"", splash_path, "\"");
    out.append(line.as_str());
    out.append("\n");
    out
}

/// Whether a line survives being written and read again: it holds no line feed and does
/// not end in a carriage return.
pub open spec fn plain_line(line: Seq<char>) -> bool {
    &&& holds_no_feed(line)
    &&& line.len() > 0 ==> line.last() != '\r'
}

/// Lines that are joined and ended by line feeds read back as they are.
proof fn lemma_lines_of_joined(all: Seq<Seq<char>>, rest: Seq<char>)
    requires
        all.len() > 0,
        forall|i: int| 0 <= i < all.len() ==> plain_line(#[trigger] all[i]),
    ensures
        lines_of(joined(all, "\n"@) + seq!['\n'] + rest) == all + lines_of(rest),
    decreases all.len(),
{
    reveal_strlit("\n");
    assert("\n"@ == seq!['\n']);
    let last = all.last();
    assert(plain_line(all[all.len() - 1]));
    if all.len() == 1 {
        assert(joined(all, "\n"@) == last);
        lemma_lines_of_line(seq![], last, rest);
        assert(Seq::<char>::empty() + last == last);
        assert(seq![without_return(last)] == all);
    } else {
        let front = all.drop_last();
        assert forall|i: int| 0 <= i < front.len() implies plain_line(#[trigger] front[i]) by {
            assert(front[i] == all[i]);
        }
        let tail = last + seq!['\n'] + rest;
        lemma_lines_of_joined(front, tail);
        assert(joined(all, "\n"@) == joined(front, "\n"@) + "\n"@ + last);
        assert(joined(all, "\n"@) + seq!['\n'] + rest == joined(front, "\n"@) + seq!['\n'] + tail);
        lemma_lines_of_line(seq![], last, rest);
        assert(Seq::<char>::empty() + last == last);
        assert(front + (seq![last] + lines_of(rest)) == all + lines_of(rest));
    }
}

/// Whether a text holds no line feed.
pub open spec fn holds_no_feed(line: Seq<char>) -> bool {
    forall|i: int| 0 <= i < line.len() ==> #[trigger] line[i] != '\n'
}

proof fn lemma_lines_hold_no_feed(cur: Seq<char>, s: Seq<char>)
    requires
        holds_no_feed(cur),
    ensures
        forall|k: int|
            0 <= k < lines_from(cur, s).len() ==> holds_no_feed(#[trigger] lines_from(cur, s)[k]),
    decreases s.len(),
{
    let all = lines_from(cur, s);
    if s.len() == 0 {
        assert forall|k: int| 0 <= k < all.len() implies holds_no_feed(#[trigger] all[k]) by {
            assert(all[k] == cur);
        }
    } else if s[0] == '\n' {
        lemma_lines_hold_no_feed(seq![], s.drop_first());
        let rest = lines_from(seq![], s.drop_first());
        assert(all == seq![without_return(cur)] + rest);
        assert forall|k: int| 0 <= k < all.len() implies holds_no_feed(#[trigger] all[k]) by {
            if k > 0 {
                assert(all[k] == rest[k - 1]);
            } else {
                assert(all[0] == without_return(cur));
            }
        }
    } else {
        let next = cur.push(s[0]);
        assert(holds_no_feed(next));
        lemma_lines_hold_no_feed(next, s.drop_first());
        let rest = lines_from(next, s.drop_first());
        assert(all == rest);
        assert forall|k: int| 0 <= k < all.len() implies holds_no_feed(#[trigger] all[k]) by {
            assert(all[k] == rest[k]);
        }
    }
}

proof fn lemma_unmanaged(all: Seq<Seq<char>>, marker: Seq<char>)
    ensures
        forall|i: int|
            0 <= i < unmanaged(all, marker).len() ==> !is_managed(
                #[trigger] unmanaged(all, marker)[i],
                marker,
            ) && all.contains(unmanaged(all, marker)[i]),
    decreases all.len(),
{
    if all.len() > 0 {
        let front = all.drop_last();
        lemma_unmanaged(front, marker);
        let kept = unmanaged(all, marker);
        let before = unmanaged(front, marker);
        assert forall|i: int| 0 <= i < kept.len() implies !is_managed(#[trigger] kept[i], marker)
            && all.contains(kept[i]) by {
            if i < before.len() {
                assert(kept[i] == before[i]);
                let j = choose|j: int| 0 <= j < front.len() && front[j] == before[i];
                assert(all[j] == kept[i]);
            } else {
                assert(all[all.len() - 1] == kept[i]);
            }
        }
    }
}

proof fn lemma_unmanaged_keeps(all: Seq<Seq<char>>, marker: Seq<char>)
    requires
        forall|i: int| 0 <= i < all.len() ==> !is_managed(#[trigger] all[i], marker),
    ensures
        unmanaged(all, marker) == all,
    decreases all.len(),
{
    if all.len() > 0 {
        let front = all.drop_last();
        assert forall|i: int| 0 <= i < front.len() implies !is_managed(
            #[trigger] front[i],
            marker,
        ) by {
            assert(front[i] == all[i]);
        }
        lemma_unmanaged_keeps(front, marker);
        assert(!is_managed(all[all.len() - 1], marker));
        assert(front.push(all.last()) == all);
    }
}

/// Whether no line of a text ends in a stray carriage return.
pub open spec fn plainly_ended(content: Seq<char>) -> bool {
    forall|i: int|
        0 <= i < lines_of(content).len() && (#[trigger] lines_of(content)[i]).len() > 0
            ==> lines_of(content)[i].last() != '\r'
}

proof fn lemma_kept_lines_are_plain(content: Seq<char>, marker: Seq<char>)
    requires
        plainly_ended(content),
    ensures
        forall|i: int|
            0 <= i < unmanaged(lines_of(content), marker).len() ==> plain_line(
                #[trigger] unmanaged(lines_of(content), marker)[i],
            ) && !is_managed(unmanaged(lines_of(content), marker)[i], marker),
{
    let all = lines_of(content);
    let kept = unmanaged(all, marker);
    lemma_unmanaged(all, marker);
    lemma_lines_hold_no_feed(seq![], content);
    assert forall|i: int| 0 <= i < kept.len() implies plain_line(#[trigger] kept[i])
        && !is_managed(kept[i], marker) by {
        assert(all.contains(kept[i]));
        let j = choose|j: int| 0 <= j < all.len() && all[j] == kept[i];
        assert(holds_no_feed(all[j]));
        assert(all[j].len() > 0 ==> all[j].last() != '\r');
    }
}

/// The lines of stripped defaults, followed by more text: the kept lines, or one empty line
/// where none was kept.
proof fn lemma_lines_of_stripped(content: Seq<char>, marker: Seq<char>, rest: Seq<char>)
    requires
        plainly_ended(content),
    ensures
        ({
            let kept = unmanaged(lines_of(content), marker);
            lines_of(stripped(content, marker) + rest) == (if kept.len() == 0 {
                seq![Seq::<char>::empty()]
            } else {
                kept
            }) + lines_of(rest)
        }),
{
    let kept = unmanaged(lines_of(content), marker);
    lemma_kept_lines_are_plain(content, marker);
    if kept.len() == 0 {
        let none = Seq::<char>::empty();
        assert(joined(kept, "\n"@) == none);
        lemma_lines_of_line(seq![], none, rest);
        assert(stripped(content, marker) + rest == none + seq!['\n'] + rest);
        assert(none + none == none);
    } else {
        lemma_lines_of_joined(kept, rest);
        assert(stripped(content, marker) + rest == joined(kept, "\n"@) + seq!['\n'] + rest);
    }
}

/// Nothing is managed that does not name the key.
proof fn lemma_empty_is_unmanaged(marker: Seq<char>)
    ensures
        !is_managed(Seq::<char>::empty(), marker),
{
    reveal_strlit("GRUB_BACKGROUND=");
    assert(trim_front(Seq::<char>::empty()) == Seq::<char>::empty());
    assert(without_hashes(Seq::<char>::empty()) == Seq::<char>::empty());
    assert("GRUB_BACKGROUND="@.len() == 16);
}

/// Stripping twice is stripping once.
pub proof fn law_strip_is_idempotent(content: Seq<char>, marker: Seq<char>)
    requires
        plainly_ended(content),
    ensures
        stripped(stripped(content, marker), marker) == stripped(content, marker),
{
    let once = stripped(content, marker);
    let kept = unmanaged(lines_of(content), marker);
    lemma_lines_of_stripped(content, marker, seq![]);
    lemma_kept_lines_are_plain(content, marker);
    assert(once + seq![] == once);
    assert(lines_of(Seq::<char>::empty()) == Seq::<Seq<char>>::empty());
    if kept.len() == 0 {
        let one = seq![Seq::<char>::empty()];
        assert(lines_of(once) == one);
        lemma_empty_is_unmanaged(marker);
        lemma_unmanaged_keeps(one, marker);
        assert(joined(one, "\n"@) == Seq::<char>::empty());
    } else {
        assert(lines_of(once) == kept);
        lemma_unmanaged_keeps(kept, marker);
    }
}

/// A background that someone set some other way is left alone: a line that does not carry
/// the marker is kept whatever it says.
pub proof fn law_foreign_lines_stay(content: Seq<char>, marker: Seq<char>, i: int)
    requires
        0 <= i < lines_of(content).len(),
        !occurs(lines_of(content)[i], marker),
    ensures
        unmanaged(lines_of(content), marker).contains(lines_of(content)[i]),
{
    lemma_unmanaged_contains(lines_of(content), marker, i);
}

proof fn lemma_unmanaged_contains(all: Seq<Seq<char>>, marker: Seq<char>, i: int)
    requires
        0 <= i < all.len(),
        !is_managed(all[i], marker),
    ensures
        unmanaged(all, marker).contains(all[i]),
    decreases all.len(),
{
    let front = all.drop_last();
    let before = unmanaged(front, marker);
    let kept = unmanaged(all, marker);
    if i == all.len() - 1 {
        assert(kept[kept.len() - 1] == all[i]);
    } else {
        assert(front[i] == all[i]);
        lemma_unmanaged_contains(front, marker, i);
        let j = choose|j: int| 0 <= j < before.len() && before[j] == all[i];
        assert(kept[j] == all[i]);
    }
}

/// The line that sets a background at a path with the marker in it is managed.
proof fn lemma_background_line_is_managed(marker: Seq<char>, splash_path: Seq<char>)
    requires
        occurs(splash_path, marker),
    ensures
        is_managed(background_line(splash_path), marker),
{
    let line = background_line(splash_path);
    reveal_strlit("GRUB_BACKGROUND=");
    reveal_strlit("GRUB_BACKGROUND=\"");
    let head = "GRUB_BACKGROUND=\""@;
    assert(line[0] == head[0]);
    assert(head[0] == 'G');
    assert(trim_front(line) == line);
    assert(without_hashes(line) == line);
    assert(head.subrange(0, 16) == "GRUB_BACKGROUND="@);
    assert(line.subrange(0, 16) == head.subrange(0, 16));
    assert(stands_at(line, "GRUB_BACKGROUND="@, 0));
    let at = choose|at: int| stands_at(splash_path, marker, at);
    assert(line.subrange(at + 17, at + 17 + marker.len()) == splash_path.subrange(
        at,
        at + marker.len(),
    ));
    assert(stands_at(line, marker, at + 17));
}

/// Stripping what was set gives back what stripping gave before it was set: the background
/// is undone without a trace.
pub proof fn law_strip_undoes_upsert(
    content: Seq<char>,
    marker: Seq<char>,
    splash_path: Seq<char>,
)
    requires
        plainly_ended(content),
        occurs(splash_path, marker),
        forall|i: int| 0 <= i < splash_path.len() ==> #[trigger] splash_path[i] != '\n',
    ensures
        stripped(with_background(content, marker, splash_path), marker) == stripped(
            content,
            marker,
        ),
{
    let line = background_line(splash_path);
    let kept = unmanaged(lines_of(content), marker);
    let all = with_background(content, marker, splash_path);
    lemma_background_line_is_managed(marker, splash_path);
    lemma_kept_lines_are_plain(content, marker);
    reveal_strlit("\n");
    reveal_strlit("\"");
    reveal_strlit("GRUB_BACKGROUND=\"");
    let head = "GRUB_BACKGROUND=\""@;
    assert forall|i: int| 0 <= i < line.len() implies #[trigger] line[i] != '\n' by {
        if i < 17 {
            assert(line[i] == head[i]);
        } else if i < 17 + splash_path.len() {
            assert(line[i] == splash_path[i - 17]);
        } else {
            assert(line[i] == '"');
        }
    }
    assert(line.last() == '"');
    let rest = line + "\n"@;
    assert(all == stripped(content, marker) + rest);
    lemma_lines_of_stripped(content, marker, rest);
    assert(rest == line + seq!['\n'] + seq![]);
    lemma_lines_of_line(seq![], line, seq![]);
    assert(Seq::<char>::empty() + line == line);
    assert(lines_of(Seq::<char>::empty()) == Seq::<Seq<char>>::empty());
    assert(lines_of(rest) == seq![line]);
    let front = if kept.len() == 0 {
        seq![Seq::<char>::empty()]
    } else {
        kept
    };
    assert(lines_of(all) == front.push(line));
    assert(front.push(line).drop_last() == front);
    lemma_empty_is_unmanaged(marker);
    lemma_unmanaged_keeps(front, marker);
    assert(unmanaged(lines_of(all), marker) == front);
    if kept.len() == 0 {
        assert(joined(front, "\n"@) == Seq::<char>::empty());
        assert(joined(kept, "\n"@) == Seq::<char>::empty());
    }
}

/// Setting the same background again changes nothing.
pub proof fn law_upsert_is_idempotent(content: Seq<char>, marker: Seq<char>, splash_path: Seq<char>)
    requires
        plainly_ended(content),
        occurs(splash_path, marker),
        forall|i: int| 0 <= i < splash_path.len() ==> #[trigger] splash_path[i] != '\n',
    ensures
        with_background(with_background(content, marker, splash_path), marker, splash_path)
            == with_background(content, marker, splash_path),
{
    law_strip_undoes_upsert(content, marker, splash_path);
}

// ---------------------------------------------------------------------------
// Applying
// ---------------------------------------------------------------------------

/// The longest encoded image that is looked at.
pub open spec fn max_payload() -> int {
    MAX_IMAGE_BYTES * 4 / 3 + 4
}

/// Checks the image before anything is touched: an extension that GRUB can load, which is
/// also all the staged file's name takes from the caller; a size that is bounded before the
/// image is decoded; and an encoding without irregularities.
pub fn check_image(extension: &str, payload: &str) -> (r: Result<Vec<u8>, String>)
    ensures
        match r {
            Ok(image) => {
                &&& loadable(extension@)
                &&& payload.len() <= max_payload()
                &&& encoding(image@) == payload@
                &&& 0 < image@.len() <= MAX_IMAGE_BYTES
            },
            Err(e) => if !loadable(extension@) {
                e@ == failure(
                    quoting("grub-splash-apply: unsupported image extension "@, extension@, ""@),
                )
            } else if payload.len() > max_payload() {
                e@ == failure("grub-splash-apply: image too large"@)
            } else if forall|data: Seq<u8>| encoding(data) != payload@ {
                e@ == failure("grub-splash-apply: malformed image payload"@)
            } else {
                &&& e@ == failure("grub-splash-apply: image too large or empty"@)
                &&& forall|data: Seq<u8>|
                    encoding(data) == payload@ ==> data.len() == 0 || data.len()
                        > MAX_IMAGE_BYTES
            },
        },
{
    if !extension_supported(extension) {
        return Err(fail_quoting("grub-splash-apply: unsupported image extension ", extension, ""));
    }
    if payload.len() > MAX_IMAGE_BYTES * 4 / 3 + 4 {
        return Err(fail("grub-splash-apply: image too large"));
    }
    match decode(payload) {
        None => Err(fail("grub-splash-apply: malformed image payload")),
        Some(image) => {
            if image.len() == 0 || image.len() > MAX_IMAGE_BYTES {
                proof {
                    assert forall|data: Seq<u8>| encoding(data) == payload@ implies data.len() == 0
                        || data.len() > MAX_IMAGE_BYTES by {
                        crate::protocol::base64_lite::law_encodings_are_distinct(data, image@);
                    }
                }
                Err(fail("grub-splash-apply: image too large or empty"))
            } else {
                Ok(image)
            }
        },
    }
}

/// Where the image is staged, for a `grub.cfg` and an extension.
pub open spec fn staged_path(cfg: Seq<char>, extension: Seq<char>) -> Option<Seq<char>> {
    match parent_of(cfg) {
        Some(dir) => Some(joined_path(dir, MARKER@ + "."@ + extension)),
        None => None,
    }
}

/// Where the image is staged: next to `grub.cfg`, under the marker's name.
pub fn splash_path(cfg: &str, extension: &str) -> (r: Result<String, String>)
    ensures
        match r {
            Ok(path) => staged_path(cfg@, extension@) == Some(path@),
            Err(e) => staged_path(cfg@, extension@) is None && e@ == failure(
                "grub-splash-apply: grub.cfg has no parent directory"@,
            ),
        },
{
    match parent(cfg) {
        Some(dir) => Ok(join_path(dir.as_str(), cat3(MARKER, ".", extension).as_str())),
        None => Err(fail("grub-splash-apply: grub.cfg has no parent directory")),
    }
}

/// The course of applying a background.
#[derive(Debug)]
pub enum SplashStage {
    /// The defaults as they were before they were first touched are to be kept.
    Backup,
    /// The image is to be written.
    Image,
    /// The edited defaults are to be written.
    Defaults,
    /// The configuration is to be regenerated.
    Regenerate,
    /// Regeneration failed for this reason; the defaults are to be put back.
    PutDefaultsBack(String),
    /// The staged image is to be removed.
    RemoveImage(String),
    /// The regenerated configuration is to be checked.
    Check,
    Finished(Result<(), String>),
}

/// The course of applying a background, as contracts speak of it.
pub enum SplashStanding {
    Backup,
    Image,
    Defaults,
    Regenerate,
    PutDefaultsBack(Seq<char>),
    RemoveImage(Seq<char>),
    Check,
    Finished(Result<(), Seq<char>>),
}

impl SplashStage {
    pub open spec fn standing(self) -> SplashStanding {
        match self {
            SplashStage::Backup => SplashStanding::Backup,
            SplashStage::Image => SplashStanding::Image,
            SplashStage::Defaults => SplashStanding::Defaults,
            SplashStage::Regenerate => SplashStanding::Regenerate,
            SplashStage::PutDefaultsBack(cause) => SplashStanding::PutDefaultsBack(cause@),
            SplashStage::RemoveImage(cause) => SplashStanding::RemoveImage(cause@),
            SplashStage::Check => SplashStanding::Check,
            SplashStage::Finished(r) => SplashStanding::Finished(outcome(r)),
        }
    }
}

/// How applying goes on after the step that was due ended in `result`. Until the defaults
/// are regenerated an error ends it; a failed regeneration puts the defaults back and
/// removes the image, whatever becomes of these two, and ends in its own error.
pub open spec fn splash_after(standing: SplashStanding, result: Result<(), Seq<char>>) ->
    SplashStanding {
    match standing {
        SplashStanding::Backup => match result {
            Ok(()) => SplashStanding::Image,
            Err(e) => SplashStanding::Finished(Err(e)),
        },
        SplashStanding::Image => match result {
            Ok(()) => SplashStanding::Defaults,
            Err(e) => SplashStanding::Finished(Err(e)),
        },
        SplashStanding::Defaults => match result {
            Ok(()) => SplashStanding::Regenerate,
            Err(e) => SplashStanding::Finished(Err(e)),
        },
        SplashStanding::Regenerate => match result {
            Ok(()) => SplashStanding::Check,
            Err(cause) => SplashStanding::PutDefaultsBack(cause),
        },
        SplashStanding::PutDefaultsBack(cause) => SplashStanding::RemoveImage(cause),
        SplashStanding::RemoveImage(cause) => SplashStanding::Finished(Err(cause)),
        SplashStanding::Check => SplashStanding::Finished(result),
        SplashStanding::Finished(r) => SplashStanding::Finished(r),
    }
}

/// Where applying starts: the defaults are kept once, the first time they are touched.
pub fn splash_start(backup_exists: bool) -> (r: SplashStage)
    ensures
        r.standing() == (if backup_exists {
            SplashStanding::Image
        } else {
            SplashStanding::Backup
        }),
        // What was kept the first time is never written over.
        backup_exists ==> r is Image,
        !backup_exists ==> r is Backup,
{
    if backup_exists {
        SplashStage::Image
    } else {
        SplashStage::Backup
    }
}

/// Takes note of how the step that was due went.
pub fn splash_step(stage: SplashStage, result: Result<(), String>) -> (r: SplashStage)
    ensures
        r.standing() == splash_after(stage.standing(), outcome(result)),
{
    match stage {
        SplashStage::Backup => match result {
            Ok(()) => SplashStage::Image,
            Err(e) => SplashStage::Finished(Err(e)),
        },
        SplashStage::Image => match result {
            Ok(()) => SplashStage::Defaults,
            Err(e) => SplashStage::Finished(Err(e)),
        },
        SplashStage::Defaults => match result {
            Ok(()) => SplashStage::Regenerate,
            Err(e) => SplashStage::Finished(Err(e)),
        },
        SplashStage::Regenerate => match result {
            Ok(()) => SplashStage::Check,
            Err(cause) => SplashStage::PutDefaultsBack(cause),
        },
        SplashStage::PutDefaultsBack(cause) => SplashStage::RemoveImage(cause),
        SplashStage::RemoveImage(cause) => SplashStage::Finished(Err(cause)),
        SplashStage::Check => SplashStage::Finished(result),
        SplashStage::Finished(r) => SplashStage::Finished(r),
    }
}

/// A failed regeneration is undone in full: the defaults are put back and the image is
/// removed, in this order and whatever becomes of either, and the caller gets the error of
/// the regeneration.
pub proof fn law_failed_regeneration_is_undone(
    cause: Seq<char>,
    put_back: Result<(), Seq<char>>,
    removed: Result<(), Seq<char>>,
)
    ensures
        splash_after(SplashStanding::Regenerate, Err(cause)) == SplashStanding::PutDefaultsBack(
            cause,
        ),
        splash_after(
            splash_after(splash_after(SplashStanding::Regenerate, Err(cause)), put_back),
            removed,
        ) == SplashStanding::Finished(Err(cause)),
{
}

/// Whether a regenerated configuration refers to the staged image.
pub open spec fn regenerated(generated: Option<Seq<char>>, splash: Seq<char>) -> Result<
    (),
    Seq<char>,
> {
    let text = match generated {
        Some(t) => t,
        None => seq![],
    };
    if occurs(text, splash) {
        Ok(())
    } else {
        Err(
            failure(
                "grub.cfg was regenerated but does not reference the splash image - this GRUB build may be missing image support ("@
                    + splash + ")"@,
            ),
        )
    }
}

/// Checks that a regenerated configuration refers to the staged image.
pub fn check_generated(generated: &Option<String>, splash: &str) -> (r: Result<(), String>)
    ensures
        outcome(r) == regenerated(text_of(*generated), splash@),
{
    let refers = match generated {
        Some(text) => contains(text.as_str(), splash),
        None => {
            let empty = "";
            proof {
                reveal_strlit("");
                assert(empty@ == Seq::<char>::empty());
            }
            contains(empty, splash)
        },
    };
    if refers {
        Ok(())
    } else {
        Err(
            fail(
                cat3(
                    "grub.cfg was regenerated but does not reference the splash image - this GRUB build may be missing image support (",
                    splash,
                    ")",
                ).as_str(),
            ),
        )
    }
}

// ---------------------------------------------------------------------------
// Undoing
// ---------------------------------------------------------------------------

/// What undoing writes into the defaults: `None` where they cannot be read or hold nothing
/// to undo.
pub open spec fn reset_text(previous: Option<Seq<char>>) -> Option<Seq<char>> {
    match previous {
        None => None,
        Some(text) => if stripped(text, MARKER@) == text {
            None
        } else {
            Some(stripped(text, MARKER@))
        },
    }
}

/// What undoing writes into the defaults.
pub fn reset_defaults(previous: &Option<String>) -> (r: Option<String>)
    ensures
        text_of(r) == reset_text(text_of(*previous)),
{
    match previous {
        None => None,
        Some(text) => {
            let out = strip_managed_background_line(text.as_str(), MARKER);
            if same(out.as_str(), text.as_str()) {
                None
            } else {
                Some(out)
            }
        },
    }
}

/// The files that may have been staged next to `grub.cfg`, one for every extension.
pub fn staged_candidates(cfg: &str) -> (r: Vec<String>)
    ensures
        match parent_of(cfg@) {
            None => r@.len() == 0,
            Some(_) => texts(r@) == seq![
                staged_path(cfg@, "png"@)->0,
                staged_path(cfg@, "jpg"@)->0,
                staged_path(cfg@, "jpeg"@)->0,
                staged_path(cfg@, "tga"@)->0,
            ],
        },
{
    let mut out: Vec<String> = Vec::new();
    match parent(cfg) {
        None => {},
        Some(dir) => {
            out.push(join_path(dir.as_str(), cat3(MARKER, ".", EXTENSIONS[0]).as_str()));
            out.push(join_path(dir.as_str(), cat3(MARKER, ".", EXTENSIONS[1]).as_str()));
            out.push(join_path(dir.as_str(), cat3(MARKER, ".", EXTENSIONS[2]).as_str()));
            out.push(join_path(dir.as_str(), cat3(MARKER, ".", EXTENSIONS[3]).as_str()));
            assert(texts(out@) == seq![
                staged_path(cfg@, "png"@)->0,
                staged_path(cfg@, "jpg"@)->0,
                staged_path(cfg@, "jpeg"@)->0,
                staged_path(cfg@, "tga"@)->0,
            ]);
        },
    }
    out
}

/// Whether undoing regenerates the configuration: only where it changed something and
/// there is a GRUB to regenerate.
pub fn reset_regenerates(defaults_changed: bool, image_removed: bool, grub_found: bool) -> (r: bool)
    ensures
        r == ((defaults_changed || image_removed) && grub_found),
        !grub_found ==> !r,
        !defaults_changed && !image_removed ==> !r,
        grub_found && defaults_changed ==> r,
        grub_found && image_removed ==> r,
{
    (defaults_changed || image_removed) && grub_found
}

/// Undoing on a machine where nothing was ever applied changes nothing: defaults that end in
/// a line feed, with plainly ended lines and no managed line, are left as they are.
pub proof fn law_reset_without_apply_is_a_no_op(all: Seq<Seq<char>>)
    requires
        all.len() > 0,
        forall|i: int|
            0 <= i < all.len() ==> plain_line(#[trigger] all[i]) && !is_managed(all[i], MARKER@),
    ensures
        reset_text(Some(joined(all, "\n"@).push('\n'))) is None,
{
    let content = joined(all, "\n"@).push('\n');
    lemma_lines_of_joined(all, seq![]);
    assert(content == joined(all, "\n"@) + seq!['\n'] + seq![]);
    assert(lines_of(Seq::<char>::empty()) == Seq::<Seq<char>>::empty());
    assert(lines_of(content) == all);
    lemma_unmanaged_keeps(all, MARKER@);
}

/// What lies in a directory has that directory as its parent.
pub proof fn law_parent_is_the_directory(dir: Seq<char>, name: Seq<char>)
    requires
        name.len() > 0,
        name != "."@,
        forall|i: int| 0 <= i < name.len() ==> #[trigger] name[i] != '/',
        dir.len() > 0,
        dir.last() != '/',
        dir.len() >= 2 && dir.last() == '.' ==> dir[dir.len() - 2] != '/',
    ensures
        parent_of(dir + (seq!['/'] + name)) == Some(dir),
        parent_of(seq!['/'] + name) == Some("/"@),
{
    reveal_strlit("/");
    reveal_strlit(".");
    let path = dir + (seq!['/'] + name);
    let rooted = seq!['/'] + name;
    assert(path.last() == name.last());
    assert(rooted.last() == name.last());
    if name.last() == '.' {
        if name.len() == 1 {
            assert(name =~= "."@);
        }
        assert(path[path.len() - 2] == name[name.len() - 2]);
        assert(rooted[rooted.len() - 2] == name[name.len() - 2]);
    }
    assert(stripped_back(path) == path);
    assert(stripped_back(rooted) == rooted);
    lemma_name_starts_behind(dir + seq!['/'], name);
    lemma_name_starts_behind(seq!['/'], name);
    assert((dir + seq!['/']) + name =~= path);
    let above = dir + seq!['/'];
    assert(path.take(above.len() as int) =~= above);
    assert(rooted.take(1) =~= seq!['/']);
    assert(above.drop_last() =~= dir);
    assert(above.last() == '/');
    assert(stripped_back(dir) == dir);
    assert(stripped_back(above) == dir);
    assert(seq!['/'] =~= "/"@);
    assert(stripped_back("/"@) == "/"@);
    assert(path.len() >= 3);
    assert(rooted.len() >= 2);
}

proof fn lemma_name_starts_behind(above: Seq<char>, name: Seq<char>)
    requires
        above.len() > 0,
        above.last() == '/',
        forall|i: int| 0 <= i < name.len() ==> #[trigger] name[i] != '/',
    ensures
        name_start(above + name) == above.len(),
    decreases name.len(),
{
    let path = above + name;
    if name.len() == 0 {
        assert(path =~= above);
    } else {
        assert(path.last() == name.last());
        assert(path.drop_last() =~= above + name.drop_last());
        lemma_name_starts_behind(above, name.drop_last());
    }
}

/// The configuration is Debian's where that exists, and Fedora's where only that does.
pub proof fn law_first_configuration_is_taken(root: Seq<char>, facts: GrubFacts)
    ensures
        facts.debian_cfg ==> cfg_of(root, facts) == Some(
            joined_path(root, "boot/grub/grub.cfg"@),
        ),
        !facts.debian_cfg && facts.fedora_cfg ==> cfg_of(root, facts) == Some(
            joined_path(root, "boot/grub2/grub.cfg"@),
        ),
        cfg_of(root, facts) is None <==> !facts.debian_cfg && !facts.fedora_cfg,
{
}

/// `update-grub` is run where it is installed, without arguments; the generators are told
/// where to write, and `grub2-mkconfig` is preferred.
pub proof fn law_first_generator_is_run(facts: GrubFacts, cfg: Seq<char>)
    ensures
        generator_of(facts, cfg) is None <==> !facts.update_grub && !facts.grub2_mkconfig
            && !facts.grub_mkconfig,
        facts.update_grub ==> (generator_of(facts, cfg)->0).0 == "update-grub"@ && (generator_of(
            facts,
            cfg,
        )->0).1.len() == 0,
        !facts.update_grub && facts.grub2_mkconfig ==> (generator_of(facts, cfg)->0).0
            == "grub2-mkconfig"@,
        !facts.update_grub && !facts.grub2_mkconfig && facts.grub_mkconfig ==> (generator_of(
            facts,
            cfg,
        )->0).0 == "grub-mkconfig"@,
        generator_of(facts, cfg) is Some && !facts.update_grub ==> (generator_of(facts, cfg)->0).1
            == seq!["-o"@, cfg],
{
}

/// The image is staged next to the configuration, under the marker and its own extension, so
/// that the line that names it is known again as managed.
pub proof fn law_image_is_staged_next_to_the_configuration(
    dir: Seq<char>,
    name: Seq<char>,
    extension: Seq<char>,
)
    requires
        name.len() > 0,
        name != "."@,
        forall|i: int| 0 <= i < name.len() ==> #[trigger] name[i] != '/',
        dir.len() > 0,
        dir.last() != '/',
        dir.len() >= 2 && dir.last() == '.' ==> dir[dir.len() - 2] != '/',
    ensures
        staged_path(dir + (seq!['/'] + name), extension) == Some(
            dir + "/"@ + ("predator-sense-splash"@ + "."@ + extension),
        ),
{
    law_parent_is_the_directory(dir, name);
    reveal_strlit("predator-sense-splash");
    assert(MARKER@ == "predator-sense-splash"@);
    assert((MARKER@ + "."@ + extension)[0] == 'p');
}

/// Applying takes its steps in order: the defaults are kept, the image is written, the
/// defaults are edited, the configuration is regenerated and then checked; an error before
/// the regeneration ends it there.
pub proof fn law_applying_goes_in_order(checked: Result<(), Seq<char>>, e: Seq<char>)
    ensures
        splash_after(SplashStanding::Backup, Ok(())) == SplashStanding::Image,
        splash_after(SplashStanding::Image, Ok(())) == SplashStanding::Defaults,
        splash_after(SplashStanding::Defaults, Ok(())) == SplashStanding::Regenerate,
        splash_after(SplashStanding::Regenerate, Ok(())) == SplashStanding::Check,
        splash_after(SplashStanding::Check, checked) == SplashStanding::Finished(checked),
        splash_after(SplashStanding::Backup, Err(e)) == SplashStanding::Finished(Err(e)),
        splash_after(SplashStanding::Image, Err(e)) == SplashStanding::Finished(Err(e)),
        splash_after(SplashStanding::Defaults, Err(e)) == SplashStanding::Finished(Err(e)),
{
}

/// A configuration was regenerated where the image's path stands in it, and nowhere else.
pub proof fn law_configuration_has_to_name_the_image(
    before: Seq<char>,
    splash: Seq<char>,
    after: Seq<char>,
    other: Seq<char>,
)
    ensures
        regenerated(Some(before + splash + after), splash) is Ok,
        (forall|at: int| !stands_at(other, splash, at)) ==> regenerated(Some(other), splash)
            is Err,
        splash.len() > 0 ==> regenerated(None, splash) is Err,
{
    let text = before + splash + after;
    let at = before.len() as int;
    assert(text.subrange(at, at + splash.len()) =~= splash);
    assert(stands_at(text, splash, at));
}

/// The line that sets the background names the image in quotes.
pub proof fn law_background_line_names_the_image(path: Seq<char>)
    ensures
        background_line(path) == "GRUB_BACKGROUND="@ + (seq!['"'] + path + seq!['"']),
{
    reveal_strlit("GRUB_BACKGROUND=\"");
    reveal_strlit("GRUB_BACKGROUND=");
    reveal_strlit("\"");
    assert("GRUB_BACKGROUND=\""@ =~= "GRUB_BACKGROUND="@ + seq!['"']);
    assert("\""@ =~= seq!['"']);
    assert(background_line(path) =~= "GRUB_BACKGROUND="@ + (seq!['"'] + path + seq!['"']));
}

/// A payload is looked at up to the size that the largest image is encoded in.
pub proof fn law_payload_of_any_allowed_image_is_looked_at(image: Seq<u8>)
    requires
        image.len() <= 0x80_0000,
    ensures
        encoding(image).len() <= max_payload(),
        max_payload() <= 0x80_0000 * 4 / 3 + 4,
{
    crate::protocol::base64_lite::law_encoding_goes_by_groups(image, 0, 0, 0);
}

proof fn lemma_occurs_further_back(front: Seq<char>, rest: Seq<char>, needle: Seq<char>)
    requires
        occurs(rest, needle),
    ensures
        occurs(front + rest, needle),
{
    let at = choose|at: int| stands_at(rest, needle, at);
    let s = front + rest;
    let there = at + front.len();
    assert(s.subrange(there, there + needle.len()) =~= rest.subrange(at, at + needle.len()));
    assert(stands_at(s, needle, there));
}

/// A line that sets a background and carries the marker is managed, commented out or not;
/// without the marker, or where it sets something else, it is somebody else's.
pub proof fn law_marked_background_lines_are_managed(rest: Seq<char>, marker: Seq<char>, c: char)
    requires
        occurs(rest, marker),
    ensures
        is_managed("GRUB_BACKGROUND="@ + rest, marker),
        is_managed(seq!['#'] + ("GRUB_BACKGROUND="@ + rest), marker),
        is_managed(seq!['#', ' '] + ("GRUB_BACKGROUND="@ + rest), marker),
        c != 'G' && c != '#' && !crate::text::is_space(c) ==> !is_managed(seq![c] + rest, marker),
        forall|line: Seq<char>| !occurs(line, marker) ==> !#[trigger] is_managed(line, marker),
{
    reveal_strlit("GRUB_BACKGROUND=");
    let setting = "GRUB_BACKGROUND="@ + rest;
    let hash = seq!['#'] + setting;
    let spaced = seq!['#', ' '] + setting;
    assert(setting[0] == 'G');
    assert(setting.subrange(0, 16) =~= "GRUB_BACKGROUND="@);
    assert(stands_at(setting, "GRUB_BACKGROUND="@, 0));
    assert(trim_front(setting) == setting);
    assert(without_hashes(setting) == setting);
    assert(hash[0] == '#' && hash.drop_first() =~= setting);
    assert(trim_front(hash) == hash);
    assert(without_hashes(hash) == setting);
    let blank = seq![' '] + setting;
    assert(blank[0] == ' ' && blank.drop_first() =~= setting);
    assert(spaced[0] == '#' && spaced.drop_first() =~= blank);
    assert(trim_front(spaced) == spaced);
    assert(without_hashes(blank) == blank);
    assert(without_hashes(spaced) == blank);
    assert(trim_front(blank) == setting);
    lemma_occurs_further_back("GRUB_BACKGROUND="@, rest, marker);
    lemma_occurs_further_back(seq!['#'], setting, marker);
    lemma_occurs_further_back(seq!['#', ' '], setting, marker);
    let other = seq![c] + rest;
    assert(other[0] == c);
    if c != 'G' && c != '#' && !crate::text::is_space(c) {
        assert(trim_front(other) == other);
        assert(without_hashes(other) == other);
        if stands_at(other, "GRUB_BACKGROUND="@, 0) {
            assert(other.subrange(0, 16)[0] == other[0]);
        }
    }
}

/// A dot behind a separator names the directory itself, wherever it stands, and so do further
/// separators.
pub proof fn law_dots_and_separators_name_nothing(path: Seq<char>)
    ensures
        stripped_back(path + seq!['/'] + seq!['.']) == stripped_back(path + seq!['/']),
        path.len() > 0 ==> stripped_back(path + seq!['/']) == stripped_back(path),
        stripped_back(seq!['/']) == seq!['/'],
{
    let dir = path + seq!['/'];
    let dot = dir + seq!['.'];
    assert(dot.drop_last() =~= dir);
    assert(dot.last() == '.');
    assert(dot[dot.len() - 2] == '/');
    assert(dir.drop_last() =~= path);
    assert(dir.last() == '/');
}

} // verus!
