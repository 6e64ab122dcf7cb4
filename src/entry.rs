use vstd::prelude::*;

verus! {

/// The type of a directory entry, as far as styling is concerned.
#[derive(Clone, Copy, Debug, PartialEq, Eq, Structural)]
pub enum EntryKind {
    Directory,
    File,
}

/// The colour in which a token is drawn.
#[derive(Clone, Copy, Debug, PartialEq, Eq, Structural)]
pub enum Color {
    Blue,
    Green,
}

/// Which entries the listing shows.
#[derive(Clone, Copy, Debug, PartialEq, Eq, Structural)]
pub struct Flags {
    /// Show hidden entries and the implied `.` and `..`.
    pub all: bool,
    /// Show hidden entries, but not `.` and `..`.
    pub almost_all: bool,
}

/// Directories are drawn blue, every other kind green.
pub open spec fn spec_style_of(kind: EntryKind) -> Color {
    match kind {
        EntryKind::Directory => Color::Blue,
        EntryKind::File => Color::Green,
    }
}

pub fn style_of(kind: EntryKind) -> (r: Color)
    ensures
        r == spec_style_of(kind),
{
    match kind {
        EntryKind::Directory => Color::Blue,
        EntryKind::File => Color::Green,
    }
}

/// Whether a path still carries the `./` that joining the listed directory
/// `.` with an entry's name puts in front of it.
pub open spec fn has_dir_prefix(path: Seq<char>) -> bool {
    path.len() >= 2 && path[0] == '.' && path[1] == '/'
}

/// The name shown for a path: the path without its leading `./`.
pub open spec fn display_name(path: Seq<char>) -> Seq<char> {
    if has_dir_prefix(path) {
        path.subrange(2, path.len() as int)
    } else {
        path
    }
}

/// Hidden entries are those whose name starts with a dot.
pub open spec fn is_hidden(name: Seq<char>) -> bool {
    name.len() > 0 && name[0] == '.'
}

pub open spec fn is_shown(name: Seq<char>, flags: Flags) -> bool {
    !is_hidden(name) || flags.all || flags.almost_all
}

/// Strips the leading `./` from an entry's path, if it has one.
pub fn display_name_of(path: &str) -> (r: String)
    ensures
        r@ == display_name(path@),
{
    let n = path.unicode_len();
    if n >= 2 && path.get_char(0) == '.' && path.get_char(1) == '/' {
        path.substring_char(2, n).to_string()
    } else {
        path.to_string()
    }
}

/// A directory entry as read from the file system: its path, relative to
/// the listed directory, and its type.
#[derive(Debug)]
pub struct RawEntry {
    pub path: String,
    pub kind: EntryKind,
}

impl View for RawEntry {
    type V = (Seq<char>, EntryKind);

    open spec fn view(&self) -> (Seq<char>, EntryKind) {
        (self.path@, self.kind)
    }
}

/// An entry ready to be drawn: its display name and its type, from which
/// its colour follows.
#[derive(Debug)]
pub struct RenderToken {
    pub name: String,
    pub kind: EntryKind,
}

impl View for RenderToken {
    type V = (Seq<char>, EntryKind);

    open spec fn view(&self) -> (Seq<char>, EntryKind) {
        (self.name@, self.kind)
    }
}

impl Clone for RenderToken {
    fn clone(&self) -> (r: RenderToken)
        ensures
            r@ == self@,
    {
        RenderToken { name: self.name.clone(), kind: self.kind }
    }
}

impl RenderToken {
    pub fn new(name: String, kind: EntryKind) -> (r: RenderToken)
        ensures
            r@ == (name@, kind),
    {
        RenderToken { name, kind }
    }

    pub fn style(&self) -> (r: Color)
        ensures
            r == spec_style_of(self.kind),
    {
        style_of(self.kind)
    }
}

pub open spec fn raw_views(s: Seq<RawEntry>) -> Seq<(Seq<char>, EntryKind)> {
    s.map_values(|e: RawEntry| e@)
}

pub open spec fn token_views(s: Seq<RenderToken>) -> Seq<(Seq<char>, EntryKind)> {
    s.map_values(|t: RenderToken| t@)
}

/// Why collecting the entries failed.
#[derive(Clone, Copy, Debug, PartialEq, Eq, Structural)]
pub enum CollectError {
    /// The entry at this position of the input has an empty display name.
    EmptyName { index: usize },
}

impl CollectError {
    /// The status the process exits with on this error.
    pub fn exit_code(&self) -> (r: i32)
        ensures
            r == 1,
    {
        1
    }

    /// The message shown to the user on this error.
    pub fn message(&self) -> (r: String)
        ensures
            r@ == "Error when trying to convert the DirectoryEntry into a String"@,
    {
        String::from_str("Error when trying to convert the DirectoryEntry into a String")
    }
}

/// The tokens `.` and `..` that `--all` puts before the real entries.
pub open spec fn dot_tokens(flags: Flags) -> Seq<(Seq<char>, EntryKind)> {
    if flags.all {
        seq![(seq!['.'], EntryKind::Directory), (seq!['.', '.'], EntryKind::Directory)]
    } else {
        seq![]
    }
}

/// The tokens of the real entries: each shown entry under its display name,
/// in the order of the input.
pub open spec fn shown_tokens(
    entries: Seq<(Seq<char>, EntryKind)>,
    flags: Flags,
) -> Seq<(Seq<char>, EntryKind)>
    decreases entries.len(),
{
    if entries.len() == 0 {
        seq![]
    } else {
        let prev = shown_tokens(entries.drop_last(), flags);
        let name = display_name(entries.last().0);
        if is_shown(name, flags) {
            prev.push((name, entries.last().1))
        } else {
            prev
        }
    }
}

/// The whole listing: `.` and `..` where asked for, then the shown entries.
pub open spec fn collected(
    entries: Seq<(Seq<char>, EntryKind)>,
    flags: Flags,
) -> Seq<(Seq<char>, EntryKind)> {
    dot_tokens(flags) + shown_tokens(entries, flags)
}

pub open spec fn name_is_empty(entries: Seq<(Seq<char>, EntryKind)>, i: int) -> bool {
    display_name(entries[i].0).len() == 0
}

/// The position of the first entry with an empty display name, if any.
pub open spec fn first_empty_name(entries: Seq<(Seq<char>, EntryKind)>, i: int) -> bool {
    &&& 0 <= i < entries.len()
    &&& name_is_empty(entries, i)
    &&& forall|j: int| 0 <= j < i ==> !#[trigger] name_is_empty(entries, j)
}

/// The tokens that start a listing: `.` and `..` under `--all`, else none.
pub fn initial_tokens(flags: Flags) -> (r: Vec<RenderToken>)
    ensures
        token_views(r@) == dot_tokens(flags),
{
    let mut v: Vec<RenderToken> = Vec::new();
    if flags.all {
        v.push(RenderToken::new(String::from_str("."), EntryKind::Directory));
        v.push(RenderToken::new(String::from_str(".."), EntryKind::Directory));
        proof {
            reveal_strlit(".");
            reveal_strlit("..");
        }
        assert("."@ =~= seq!['.']);
        assert(".."@ =~= seq!['.', '.']);
        assert(token_views(v@) =~= dot_tokens(flags));
    } else {
        assert(token_views(v@) =~= dot_tokens(flags));
    }
    v
}

/// Adds the token of one entry to `tokens`: nothing for a hidden entry that
/// the flags do not show, and an error for an empty display name.
pub fn handle_entry(
    path: &str,
    kind: EntryKind,
    flags: Flags,
    tokens: &mut Vec<RenderToken>,
) -> (r: Result<(), ()>)
    ensures
        r is Err <==> display_name(path@).len() == 0,
        r is Err ==> final(tokens)@ == old(tokens)@,
        r is Ok ==> token_views(final(tokens)@) == if is_shown(display_name(path@), flags) {
            token_views(old(tokens)@).push((display_name(path@), kind))
        } else {
            token_views(old(tokens)@)
        },
{
    let name = display_name_of(path);
    if name.as_str().is_empty() {
        return Err(());
    }
    let hidden = name.as_str().get_char(0) == '.';
    if !hidden || flags.all || flags.almost_all {
        tokens.push(RenderToken::new(name, kind));
        assert(token_views(tokens@) =~= token_views(old(tokens)@).push((display_name(path@), kind)));
    }
    Ok(())
}

/// Collects the tokens of a listing, in input order, or the first entry whose
/// display name is empty.
pub fn collect(entries: &Vec<RawEntry>, flags: Flags) -> (r: Result<Vec<RenderToken>, CollectError>)
    ensures
        match r {
            Ok(v) => {
                &&& forall|i: int| 0 <= i < entries@.len() ==> !name_is_empty(raw_views(entries@), i)
                &&& token_views(v@) == collected(raw_views(entries@), flags)
            },
            Err(CollectError::EmptyName { index }) => first_empty_name(
                raw_views(entries@),
                index as int,
            ),
        },
{
    let mut tokens = initial_tokens(flags);
    let ghost dots = dot_tokens(flags);
    let mut i: usize = 0;
    while i < entries.len()
        invariant
            i <= entries@.len(),
            token_views(tokens@) == dots + shown_tokens(raw_views(entries@.subrange(0, i as int)), flags),
            dots == dot_tokens(flags),
            forall|j: int| 0 <= j < i ==> !#[trigger] name_is_empty(raw_views(entries@), j),
        decreases entries@.len() - i,
    {
        let e = &entries[i];
        let res = handle_entry(e.path.as_str(), e.kind, flags, &mut tokens);
        proof {
            let pre = raw_views(entries@.subrange(0, i as int));
            let post = raw_views(entries@.subrange(0, i + 1));
            assert(post.drop_last() =~= pre);
            assert(post.last() == raw_views(entries@)[i as int]);
        }
        if res.is_err() {
            return Err(CollectError::EmptyName { index: i });
        }
        i = i + 1;
    }
    assert(entries@.subrange(0, i as int) =~= entries@);
    Ok(tokens)
}

/// The number of entries whose display name the flags show.
pub open spec fn count_shown(entries: Seq<(Seq<char>, EntryKind)>, flags: Flags) -> nat
    decreases entries.len(),
{
    if entries.len() == 0 {
        0
    } else {
        count_shown(entries.drop_last(), flags) + if is_shown(
            display_name(entries.last().0),
            flags,
        ) {
            1nat
        } else {
            0nat
        }
    }
}

proof fn lemma_shown_tokens(entries: Seq<(Seq<char>, EntryKind)>, flags: Flags)
    ensures
        shown_tokens(entries, flags).len() == count_shown(entries, flags),
        forall|k: int|
            0 <= k < shown_tokens(entries, flags).len() ==> is_shown(
                #[trigger] shown_tokens(entries, flags)[k].0,
                flags,
            ),
    decreases entries.len(),
{
    if entries.len() > 0 {
        lemma_shown_tokens(entries.drop_last(), flags);
    }
}

/// A listing holds one token per entry that the flags show, no hidden entry
/// unless `--all` or `--almost-all` is given, and `.` and `..` in front
/// exactly when `--all` is given.
pub proof fn lemma_listing_count(entries: Seq<(Seq<char>, EntryKind)>, flags: Flags)
    ensures
        collected(entries, flags).len() == (if flags.all {
            2nat
        } else {
            0nat
        }) + count_shown(entries, flags),
        flags.all ==> collected(entries, flags).subrange(0, 2) == seq![
            (seq!['.'], EntryKind::Directory),
            (seq!['.', '.'], EntryKind::Directory),
        ],
        !flags.all ==> collected(entries, flags) == shown_tokens(entries, flags),
        !flags.all && !flags.almost_all ==> forall|k: int|
            0 <= k < collected(entries, flags).len() ==> !is_hidden(
                #[trigger] collected(entries, flags)[k].0,
            ),
{
    lemma_shown_tokens(entries, flags);
    let c = collected(entries, flags);
    if flags.all {
        assert(c.subrange(0, 2) =~= dot_tokens(flags));
    } else {
        assert(c =~= shown_tokens(entries, flags));
    }
}

/// Name clean-up takes off the `./` prefix and nothing else: a file name
/// (which never holds a `/`) is left as it is, whether or not it went
/// through the clean-up before.
pub proof fn lemma_display_name_idempotent(name: Seq<char>)
    requires
        !name.contains('/'),
    ensures
        display_name(name) == name,
        display_name(seq!['.', '/'] + name) == name,
        display_name(display_name(seq!['.', '/'] + name)) == display_name(seq!['.', '/'] + name),
{
    if name.len() >= 2 {
        assert(name[1] != '/');
    }
    let p = seq!['.', '/'] + name;
    assert(p.subrange(2, p.len() as int) =~= name);
}

} // verus!
