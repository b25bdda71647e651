use vstd::prelude::*;
use crate::text::{push_char, push_text};
use crate::chat::is_digit;
use vstd::string::StringExecFns;

verus! {

// ---------------------------------------------------------------------------
// Splitting a command line into arguments
// ---------------------------------------------------------------------------

/// The pieces of `s` between the occurrences of `c`, read left to right: a
/// `c` starts a new piece and any other character extends the last one. The
/// empty text is one empty piece.
pub open spec fn split_pieces(s: Seq<char>, c: char) -> Seq<Seq<char>>
    decreases s.len(),
{
    if s.len() == 0 {
        seq![Seq::<char>::empty()]
    } else {
        let prev = split_pieces(s.drop_last(), c);
        if s.last() == c {
            prev.push(Seq::<char>::empty())
        } else {
            prev.update(prev.len() - 1, prev.last().push(s.last()))
        }
    }
}

/// The pieces of `s` split at `c`, without a last piece that is empty (so a
/// `c` at the end ends a piece rather than starting one).
pub open spec fn split_terminated(s: Seq<char>, c: char) -> Seq<Seq<char>> {
    let p = split_pieces(s, c);
    if p.last().len() == 0 {
        p.drop_last()
    } else {
        p
    }
}

/// The pieces of `p` that are not empty, in order.
pub open spec fn nonempty_pieces(p: Seq<Seq<char>>) -> Seq<Seq<char>>
    decreases p.len(),
{
    if p.len() == 0 {
        p
    } else {
        let prev = nonempty_pieces(p.drop_last());
        if p.last().len() > 0 {
            prev.push(p.last())
        } else {
            prev
        }
    }
}

/// The arguments that chunk number `k` gives: the chunks at even numbers are
/// split at spaces, the others are one argument each.
pub open spec fn chunk_args(chunk: Seq<char>, k: int) -> Seq<Seq<char>> {
    if k % 2 == 0 {
        split_terminated(chunk, ' ')
    } else {
        seq![chunk]
    }
}

/// The arguments of the chunks, in order.
pub open spec fn args_of(chunks: Seq<Seq<char>>) -> Seq<Seq<char>>
    decreases chunks.len(),
{
    if chunks.len() == 0 {
        Seq::empty()
    } else {
        args_of(chunks.drop_last()) + chunk_args(chunks.last(), chunks.len() - 1)
    }
}

/// The arguments of a command line: the text is cut at double quotes, empty
/// chunks are dropped, and the remaining chunks alternate between plain text
/// (split at spaces) and quoted text (kept whole), starting with plain text.
pub open spec fn command_args(s: Seq<char>) -> Seq<Seq<char>> {
    args_of(nonempty_pieces(split_pieces(s, '"')))
}

/// The views of a list of character vectors.
pub open spec fn views(v: Seq<Vec<char>>) -> Seq<Seq<char>> {
    v.map_values(|x: Vec<char>| x@)
}

proof fn lemma_split_pieces_len(s: Seq<char>, c: char)
    ensures
        split_pieces(s, c).len() >= 1,
    decreases s.len(),
{
    if s.len() > 0 {
        lemma_split_pieces_len(s.drop_last(), c);
    }
}

/// Splits `chars` at every `c` (see [`split_pieces`]).
fn split_on(chars: &Vec<char>, c: char) -> (r: Vec<Vec<char>>)
    ensures
        views(r@) == split_pieces(chars@, c),
        r@.len() >= 1,
{
    let mut out: Vec<Vec<char>> = Vec::new();
    let mut cur: Vec<char> = Vec::new();
    let mut i: usize = 0;
    while i < chars.len()
        invariant
            i <= chars@.len(),
            views(out@).push(cur@) == split_pieces(chars@.take(i as int), c),
        decreases chars@.len() - i,
    {
        let ch = chars[i];
        proof {
            assert(chars@.take(i + 1).drop_last() =~= chars@.take(i as int));
            assert(chars@.take(i + 1).last() == ch);
            lemma_split_pieces_len(chars@.take(i as int), c);
        }
        if ch == c {
            let done = cur;
            out.push(done);
            cur = Vec::new();
            proof {
                assert(views(out@).push(cur@) =~= split_pieces(chars@.take(i + 1), c));
            }
        } else {
            let ghost before = cur@;
            cur.push(ch);
            proof {
                assert(views(out@).push(cur@) =~= split_pieces(chars@.take(i + 1), c));
            }
        }
        i = i + 1;
    }
    proof {
        assert(chars@.take(i as int) =~= chars@);
    }
    out.push(cur);
    proof {
        assert(views(out@) =~= split_pieces(chars@, c));
    }
    out
}

/// Splits `chars` at every `c`, without an empty last piece (see
/// [`split_terminated`]).
fn split_terminated_on(chars: &Vec<char>, c: char) -> (r: Vec<Vec<char>>)
    ensures
        views(r@) == split_terminated(chars@, c),
{
    let mut pieces = split_on(chars, c);
    let n = pieces.len();
    proof {
        assert(views(pieces@)[n - 1] == pieces@[n - 1]@);
    }
    if pieces[n - 1].len() == 0 {
        pieces.pop();
        proof {
            assert(views(pieces@) =~= split_terminated(chars@, c));
        }
    }
    pieces
}

/// The arguments of the chunk `chunk`, whose number is even when `even` (see
/// [`chunk_args`]).
fn chunk_args_of(chunk: Vec<char>, even: bool) -> (r: Vec<Vec<char>>)
    ensures
        views(r@) == if even { split_terminated(chunk@, ' ') } else { seq![chunk@] },
{
    if even {
        split_terminated_on(&chunk, ' ')
    } else {
        let mut out: Vec<Vec<char>> = Vec::new();
        let ghost v = chunk@;
        out.push(chunk);
        proof {
            assert(views(out@) =~= seq![v]);
        }
        out
    }
}

/// Splits a command line into its arguments (see [`command_args`]).
pub fn split_command(s: &str) -> (r: Vec<Vec<char>>)
    ensures
        views(r@) == command_args(s@),
{
    broadcast use vstd::string::group_string_axioms;

    let mut args: Vec<Vec<char>> = Vec::new();
    let mut cur: Vec<char> = Vec::new();
    let mut even = true;
    let ghost mut done: Seq<Seq<char>> = Seq::empty();
    for c in iter: s.chars()
        invariant
            iter.seq() == s@,
            split_pieces(s@.take(iter.index() as int), '"') == done.push(cur@),
            even == (nonempty_pieces(done).len() % 2 == 0),
            views(args@) == args_of(nonempty_pieces(done)),
    {
        proof {
            let k = iter.index() as int;
            assert(s@.take(k + 1).drop_last() =~= s@.take(k));
            assert(s@.take(k + 1).last() == c);
        }
        if c == '"' {
            let ghost piece = cur@;
            proof {
                assert(done.push(cur@).drop_last() =~= done);
            }
            let ghost old_args = views(args@);
            if cur.len() > 0 {
                let ghost k = nonempty_pieces(done).len() as int;
                let mut more = chunk_args_of(cur, even);
                args.append(&mut more);
                even = !even;
                proof {
                    assert(views(args@) =~= old_args + chunk_args(piece, k));
                    assert(nonempty_pieces(done.push(piece)) =~= nonempty_pieces(done).push(piece));
                    assert(nonempty_pieces(done.push(piece)).drop_last() =~= nonempty_pieces(done));
                }
            } else {
                proof {
                    assert(done.push(piece).drop_last() =~= done);
                }
            }
            cur = Vec::new();
            proof {
                done = done.push(piece);
                assert(split_pieces(s@.take(iter.index() + 1), '"') =~= done.push(cur@));
            }
        } else {
            cur.push(c);
            proof {
                lemma_split_pieces_len(s@.take(iter.index() as int), '"');
                assert(split_pieces(s@.take(iter.index() + 1), '"') =~= done.push(cur@));
            }
        }
    }
    proof {
        assert(s@.take(s@.len() as int) =~= s@);
    }
    let ghost piece = cur@;
    let ghost old_args = views(args@);
    if cur.len() > 0 {
        let ghost k = nonempty_pieces(done).len() as int;
        let mut more = chunk_args_of(cur, even);
        args.append(&mut more);
        proof {
            assert(views(args@) =~= old_args + chunk_args(piece, k));
            assert(done.push(piece).drop_last() =~= done);
            assert(nonempty_pieces(done.push(piece)) =~= nonempty_pieces(done).push(piece));
            assert(nonempty_pieces(done.push(piece)).drop_last() =~= nonempty_pieces(done));
        }
    } else {
        proof {
            assert(done.push(piece).drop_last() =~= done);
        }
    }
    args
}

// ---------------------------------------------------------------------------
// Command names
// ---------------------------------------------------------------------------

/// Whether Unicode classes `c` as uppercase, as `char::is_uppercase` says.
pub uninterp spec fn uppercase(c: char) -> bool;

/// The Unicode lowercase of `s`, as `str::to_lowercase` gives it.
pub uninterp spec fn lowercase(s: Seq<char>) -> Seq<char>;

/// An ASCII uppercase letter.
pub open spec fn ascii_upper(c: char) -> bool {
    'A' <= c <= 'Z'
}

/// A character of a plain ASCII identifier: a letter, a digit or `_`.
pub open spec fn ident_char(c: char) -> bool {
    ascii_upper(c) || ('a' <= c <= 'z') || ('0' <= c <= '9') || c == '_'
}

/// The ASCII lowercase of `c`: uppercase letters become lowercase, other
/// characters stay.
pub open spec fn ascii_lower_char(c: char) -> char {
    if ascii_upper(c) {
        ((c as u32) + 32) as char
    } else {
        c
    }
}

/// Whether `c` is uppercase, by `char::is_uppercase`. As its documentation
/// (the Unicode `Uppercase` property) gives: the ASCII capitals are uppercase;
/// lowercase ASCII letters, digits and `_` are not.
#[verifier::external_body]
fn is_uppercase(c: char) -> (r: bool)
    ensures
        r == uppercase(c),
        ascii_upper(c) ==> r,
        ident_char(c) && !ascii_upper(c) ==> !r,
{
    c.is_uppercase()
}

/// The lowercase of `s`, by `str::to_lowercase`. As its documentation (the
/// Unicode `Lowercase` mapping) gives: an ASCII string lowercases letter by
/// letter.
#[verifier::external_body]
fn to_lowercase(s: &str) -> (r: String)
    ensures
        r@ == lowercase(s@),
        (forall|i: int| 0 <= i < s@.len() ==> (#[trigger] s@[i] as u32) < 128) ==> r@ == s@.map_values(|c: char| ascii_lower_char(c)),
{
    s.to_lowercase()
}

/// The variant name `name` with an underscore before every uppercase letter
/// but the first character.
pub open spec fn underscored(name: Seq<char>) -> Seq<char>
    decreases name.len(),
{
    if name.len() == 0 {
        Seq::empty()
    } else {
        let prev = underscored(name.drop_last());
        if uppercase(name.last()) && name.len() > 1 {
            prev.push('_').push(name.last())
        } else {
            prev.push(name.last())
        }
    }
}

/// [`underscored`] for plain ASCII identifiers, where the uppercase letters
/// are the ASCII capitals.
pub open spec fn underscored_ascii(name: Seq<char>) -> Seq<char>
    decreases name.len(),
{
    if name.len() == 0 {
        Seq::empty()
    } else {
        let prev = underscored_ascii(name.drop_last());
        if ascii_upper(name.last()) && name.len() > 1 {
            prev.push('_').push(name.last())
        } else {
            prev.push(name.last())
        }
    }
}

/// The command name of a plain ASCII identifier: an underscore before every
/// capital but the first character, then everything in lowercase.
pub open spec fn cmd_name_ascii(name: Seq<char>) -> Seq<char> {
    underscored_ascii(name).map_values(|c: char| ascii_lower_char(c))
}

proof fn lemma_underscored_ascii_chars(name: Seq<char>)
    requires
        forall|i: int| 0 <= i < name.len() ==> ident_char(#[trigger] name[i]),
    ensures
        forall|i: int| 0 <= i < underscored_ascii(name).len() ==> (#[trigger] underscored_ascii(name)[i] as u32) < 128,
    decreases name.len(),
{
    if name.len() > 0 {
        let prev = name.drop_last();
        assert forall|i: int| 0 <= i < prev.len() implies ident_char(#[trigger] prev[i]) by {
            assert(prev[i] == name[i]);
        }
        lemma_underscored_ascii_chars(prev);
        let last = name[name.len() - 1];
        assert(ident_char(last));
        assert((last as u32) < 128);
        assert(('_' as u32) < 128);
        let p = underscored_ascii(prev);
        let u = underscored_ascii(name);
        assert forall|i: int| 0 <= i < u.len() implies (#[trigger] u[i] as u32) < 128 by {
            if i < p.len() {
                assert(u[i] == p[i]);
            }
        }
    }
}

proof fn lemma_underscored_ascii_empty(name: Seq<char>)
    ensures
        underscored_ascii(name).len() == 0 <==> name.len() == 0,
    decreases name.len(),
{
    if name.len() > 0 {
        lemma_underscored_ascii_empty(name.drop_last());
    }
}

proof fn lemma_underscored_empty(name: Seq<char>)
    ensures
        underscored(name).len() == 0 <==> name.len() == 0,
    decreases name.len(),
{
    if name.len() > 0 {
        lemma_underscored_empty(name.drop_last());
    }
}

/// The command name of a variant name: snake case, so `MemUsage` is typed
/// as `mem_usage`.
pub fn ident_to_cmd_name(name: &str) -> (r: String)
    ensures
        r@ == lowercase(underscored(name@)),
        (forall|i: int| 0 <= i < name@.len() ==> ident_char(#[trigger] name@[i])) ==> r@ == cmd_name_ascii(name@),
{
    broadcast use vstd::string::group_string_axioms;

    let mut out = String::new();
    for c in iter: name.chars()
        invariant
            iter.seq() == name@,
            out@ == underscored(name@.take(iter.index() as int)),
            (forall|i: int| 0 <= i < name@.len() ==> ident_char(#[trigger] name@[i])) ==> out@
                == underscored_ascii(name@.take(iter.index() as int)),
    {
        let ghost k = iter.index() as int;
        proof {
            assert(name@.take(k + 1).drop_last() =~= name@.take(k));
            assert(name@.take(k + 1).last() == c);
            lemma_underscored_empty(name@.take(k));
            lemma_underscored_ascii_empty(name@.take(k));
            if forall|i: int| 0 <= i < name@.len() ==> ident_char(#[trigger] name@[i]) {
                assert(ident_char(name@[k]));
            }
        }
        if is_uppercase(c) && !out.as_str().is_empty() {
            push_char(&mut out, '_');
        }
        push_char(&mut out, c);
    }
    proof {
        assert(name@.take(name@.len() as int) =~= name@);
        if forall|i: int| 0 <= i < name@.len() ==> ident_char(#[trigger] name@[i]) {
            lemma_underscored_ascii_chars(name@);
        }
    }
    to_lowercase(out.as_str())
}

// ---------------------------------------------------------------------------
// Command tables
// ---------------------------------------------------------------------------

/// Who may use a command.
#[derive(Clone, Copy, Debug, PartialEq, Eq, Structural)]
pub enum CmdType {
    AllPlayer,
    GmOnly,
    NotGmOnly,
}

/// A chat command as its definition describes it.
pub struct CommandDef {
    /// The name typed after `!`.
    pub name: String,
    /// The names of its arguments.
    pub args: Vec<String>,
    /// Other names it can be typed as.
    pub aliases: Vec<String>,
    /// Its description.
    pub doc: String,
    pub cmd_type: CmdType,
    /// Whether missing or unreadable arguments take default values.
    pub default_args: bool,
    /// Whether this is the help command.
    pub is_help: bool,
}

/// Whether a player (a game master when `is_gm`) may use a command of type `t`.
pub open spec fn allowed(t: CmdType, is_gm: bool) -> bool {
    match t {
        CmdType::AllPlayer => true,
        CmdType::GmOnly => is_gm,
        CmdType::NotGmOnly => !is_gm,
    }
}

/// Whether `d` is typed as `cmd` by this player: by its name, or (except for
/// the help command) by an alias, and the player may use it. The help command
/// is for everyone.
pub open spec fn command_matches(d: CommandDef, cmd: Seq<char>, is_gm: bool) -> bool {
    &&& (d.name@ == cmd || (!d.is_help && exists|k: int| 0 <= k < d.aliases@.len() && (#[trigger] d.aliases@[k])@ == cmd))
    &&& (d.is_help || allowed(d.cmd_type, is_gm))
}

/// The characters of `s`.
pub fn chars_of(s: &str) -> (r: Vec<char>)
    ensures
        r@ == s@,
{
    broadcast use vstd::string::group_string_axioms;

    let mut out: Vec<char> = Vec::new();
    for c in iter: s.chars()
        invariant
            iter.seq() == s@,
            out@ == s@.take(iter.index() as int),
    {
        out.push(c);
        proof {
            assert(out@ =~= s@.take(iter.index() + 1));
        }
    }
    proof {
        assert(out@ =~= s@);
    }
    out
}

/// Whether the text `s` is the characters `t`.
fn text_is(s: &String, t: &Vec<char>) -> (r: bool)
    ensures
        r == (s@ == t@),
{
    let a = chars_of(s.as_str());
    if a.len() != t.len() {
        return false;
    }
    let mut i: usize = 0;
    while i < a.len()
        invariant
            i <= a@.len(),
            a@.len() == t@.len(),
            a@ == s@,
            forall|j: int| 0 <= j < i ==> a@[j] == t@[j],
        decreases a@.len() - i,
    {
        if a[i] != t[i] {
            return false;
        }
        i = i + 1;
    }
    proof {
        assert(a@ =~= t@);
    }
    true
}

/// The position of the first command of `table` that the player typed as
/// `cmd`, if any.
pub fn find_command(table: &Vec<CommandDef>, cmd: &Vec<char>, is_gm: bool) -> (r: Option<usize>)
    ensures
        r matches Some(k) ==> k < table@.len() && command_matches(table@[k as int], cmd@, is_gm) && forall|j: int|
            0 <= j < k ==> !command_matches(#[trigger] table@[j], cmd@, is_gm),
        r is None ==> forall|j: int| 0 <= j < table@.len() ==> !command_matches(#[trigger] table@[j], cmd@, is_gm),
{
    let mut i: usize = 0;
    while i < table.len()
        invariant
            i <= table@.len(),
            forall|j: int| 0 <= j < i ==> !command_matches(#[trigger] table@[j], cmd@, is_gm),
        decreases table@.len() - i,
    {
        let d = &table[i];
        let mut named = text_is(&d.name, cmd);
        if !named && !d.is_help {
            let mut k: usize = 0;
            while k < d.aliases.len()
                invariant
                    k <= d.aliases@.len(),
                    !named ==> forall|m: int| 0 <= m < k ==> (#[trigger] d.aliases@[m])@ != cmd@,
                    named ==> exists|m: int| 0 <= m < d.aliases@.len() && (#[trigger] d.aliases@[m])@ == cmd@,
                    named ==> !(d.name@ == cmd@) && !d.is_help,
                    !named ==> d.name@ != cmd@,
                    !d.is_help,
                decreases d.aliases@.len() - k,
            {
                if !named && text_is(&d.aliases[k], cmd) {
                    named = true;
                }
                k = k + 1;
            }
        }
        let permitted = match d.cmd_type {
            CmdType::AllPlayer => true,
            CmdType::GmOnly => is_gm,
            CmdType::NotGmOnly => !is_gm,
        };
        if named && (d.is_help || permitted) {
            return Some(i);
        }
        i = i + 1;
    }
    None
}

// ---------------------------------------------------------------------------
// Help text
// ---------------------------------------------------------------------------

/// The argument part of a help line: ` [arg]` for each argument of a command
/// with default arguments, ` {arg}` otherwise.
pub open spec fn args_text(args: Seq<String>, default_args: bool) -> Seq<char>
    decreases args.len(),
{
    if args.len() == 0 {
        Seq::empty()
    } else if default_args {
        args_text(args.drop_last(), default_args) + " ["@ + args.last()@ + "]"@
    } else {
        args_text(args.drop_last(), default_args) + " {"@ + args.last()@ + "}"@
    }
}

/// The aliases joined by `, `.
pub open spec fn joined(names: Seq<String>) -> Seq<char>
    decreases names.len(),
{
    if names.len() == 0 {
        Seq::empty()
    } else if names.len() == 1 {
        names[0]@
    } else {
        joined(names.drop_last()) + ", "@ + names.last()@
    }
}

/// The alias part of a help line, when there are aliases.
pub open spec fn aliases_text(aliases: Seq<String>) -> Seq<char> {
    if aliases.len() == 0 {
        Seq::empty()
    } else {
        " (aliases: "@ + joined(aliases) + ")"@
    }
}

/// The help line of a command: its name in yellow, its arguments and
/// aliases, then its description after a colon when it has one.
pub open spec fn help_line(d: CommandDef) -> Seq<char> {
    "{yel} - "@ + d.name@ + args_text(d.args@, d.default_args) + aliases_text(d.aliases@) + "{def}"@ + (if d.doc@.len()
        > 0 {
        ":"@ + d.doc@
    } else {
        Seq::empty()
    }) + "\n"@
}

/// The help line of a command (see [`help_line`]).
pub fn create_help_msg(d: &CommandDef) -> (r: String)
    ensures
        r@ == help_line(*d),
{
    let mut help = String::from_str("{yel} - ");
    push_text(&mut help, d.name.as_str());
    let ghost head = help@;
    let mut i: usize = 0;
    while i < d.args.len()
        invariant
            i <= d.args@.len(),
            help@ == head + args_text(d.args@.take(i as int), d.default_args),
        decreases d.args@.len() - i,
    {
        proof {
            assert(d.args@.take(i + 1).drop_last() =~= d.args@.take(i as int));
        }
        if d.default_args {
            push_text(&mut help, " [");
            push_text(&mut help, d.args[i].as_str());
            push_text(&mut help, "]");
        } else {
            push_text(&mut help, " {");
            push_text(&mut help, d.args[i].as_str());
            push_text(&mut help, "}");
        }
        i = i + 1;
        proof {
            assert(help@ =~= head + args_text(d.args@.take(i as int), d.default_args));
        }
    }
    proof {
        assert(d.args@.take(i as int) =~= d.args@);
    }
    if d.aliases.len() > 0 {
        push_text(&mut help, " (aliases: ");
        let ghost before = help@;
        let mut k: usize = 0;
        while k < d.aliases.len()
            invariant
                k <= d.aliases@.len(),
                help@ == before + joined(d.aliases@.take(k as int)),
            decreases d.aliases@.len() - k,
        {
            proof {
                assert(d.aliases@.take(k + 1).drop_last() =~= d.aliases@.take(k as int));
            }
            if k > 0 {
                push_text(&mut help, ", ");
            }
            push_text(&mut help, d.aliases[k].as_str());
            k = k + 1;
            proof {
                if k == 1 {
                    assert(joined(d.aliases@.take(0)) =~= Seq::<char>::empty());
                }
                assert(help@ =~= before + joined(d.aliases@.take(k as int)));
            }
        }
        proof {
            assert(d.aliases@.take(k as int) =~= d.aliases@);
        }
        push_text(&mut help, ")");
    }
    push_text(&mut help, "{def}");
    if !d.doc.as_str().is_empty() {
        push_text(&mut help, ":");
        push_text(&mut help, d.doc.as_str());
    }
    push_text(&mut help, "\n");
    proof {
        assert(help@ =~= help_line(*d));
    }
    help
}

/// The help lines of the commands of type `t` (the help command has none).
pub open spec fn help_section(table: Seq<CommandDef>, t: CmdType) -> Seq<char>
    decreases table.len(),
{
    if table.len() == 0 {
        Seq::empty()
    } else {
        let prev = help_section(table.drop_last(), t);
        if !table.last().is_help && table.last().cmd_type == t {
            prev + help_line(table.last())
        } else {
            prev
        }
    }
}

/// The help text a player is shown: the commands for everyone, then those
/// for game masters or those for the other players.
pub open spec fn help_text(table: Seq<CommandDef>, is_gm: bool) -> Seq<char> {
    "{def}{yel}Available commands:{def}\n"@ + help_section(table, CmdType::AllPlayer) + help_section(
        table,
        if is_gm { CmdType::GmOnly } else { CmdType::NotGmOnly },
    )
}

fn section(table: &Vec<CommandDef>, t: CmdType, out: &mut String)
    ensures
        final(out)@ == old(out)@ + help_section(table@, t),
{
    let ghost start = out@;
    let mut i: usize = 0;
    while i < table.len()
        invariant
            i <= table@.len(),
            out@ == start + help_section(table@.take(i as int), t),
        decreases table@.len() - i,
    {
        proof {
            assert(table@.take(i + 1).drop_last() =~= table@.take(i as int));
        }
        let d = &table[i];
        if !d.is_help && d.cmd_type == t {
            let line = create_help_msg(d);
            push_text(out, line.as_str());
        }
        i = i + 1;
        proof {
            assert(out@ =~= start + help_section(table@.take(i as int), t));
        }
    }
    proof {
        assert(table@.take(i as int) =~= table@);
    }
}

/// The help text for a player (see [`help_text`]).
pub fn get_help(table: &Vec<CommandDef>, is_gm: bool) -> (r: String)
    ensures
        r@ == help_text(table@, is_gm),
{
    let mut help = String::from_str("{def}{yel}Available commands:{def}\n");
    section(table, CmdType::AllPlayer, &mut help);
    if is_gm {
        section(table, CmdType::GmOnly, &mut help);
    } else {
        section(table, CmdType::NotGmOnly, &mut help);
    }
    proof {
        assert(help@ =~= help_text(table@, is_gm));
    }
    help
}

// ---------------------------------------------------------------------------
// Reading a command line
// ---------------------------------------------------------------------------

/// What a command line names.
pub enum Resolved {
    /// The line is empty: the player is shown the help text.
    Empty,
    /// No command of the table is typed so: its first argument.
    Unknown(Vec<char>),
    /// Command `index` of the table, with the arguments after its name.
    Found { index: usize, args: Vec<Vec<char>> },
}

/// The command named by the first argument of the line (the empty text when
/// there is none).
pub open spec fn first_arg(args: Seq<Seq<char>>) -> Seq<char> {
    if args.len() > 0 {
        args[0]
    } else {
        Seq::empty()
    }
}

/// Reads a command line (the text after `!`) against a command table: an
/// empty line, an unknown command, or the first command of the table typed as
/// the line's first argument, with the remaining arguments.
pub fn resolve_command(table: &Vec<CommandDef>, line: &str, is_gm: bool) -> (r: Resolved)
    ensures
        line@.len() == 0 ==> r is Empty,
        line@.len() > 0 ==> ({
            let args = command_args(line@);
            let cmd = first_arg(args);
            &&& r matches Resolved::Unknown(c) ==> c@ == cmd && forall|j: int| 0 <= j < table@.len() ==> !command_matches(#[trigger] table@[j], cmd, is_gm)
            &&& r matches Resolved::Found { index, args: rest } ==> index < table@.len() && command_matches(table@[index as int], cmd, is_gm)
                && (forall|j: int| 0 <= j < index ==> !command_matches(#[trigger] table@[j], cmd, is_gm)) && views(rest@) == if args.len() > 0 { args.drop_first() } else { Seq::empty() }
            &&& !(r is Empty)
        }),
{
    if line.is_empty() {
        return Resolved::Empty;
    }
    let mut args = split_command(line);
    let ghost all = views(args@);
    let cmd: Vec<char> = if args.len() > 0 {
        args.remove(0)
    } else {
        Vec::new()
    };
    proof {
        if all.len() > 0 {
            assert(views(args@) =~= all.drop_first());
        } else {
            assert(views(args@) =~= Seq::<Seq<char>>::empty());
        }
    }
    match find_command(table, &cmd, is_gm) {
        Some(index) => Resolved::Found { index, args },
        None => Resolved::Unknown(cmd),
    }
}

// ---------------------------------------------------------------------------
// Reading command arguments
// ---------------------------------------------------------------------------

/// Why a text is not an unsigned number, as the standard library reports it.
#[derive(Clone, Copy, Debug, PartialEq, Eq, Structural)]
pub enum IntParseError {
    Empty,
    InvalidDigit,
    PosOverflow,
}

/// Reads the digits `d` from the left: the first character that is not a
/// digit makes it invalid, and the first digit that takes the value past
/// `limit` makes it overflow.
pub open spec fn scan_digits(d: Seq<char>, limit: nat) -> Result<nat, IntParseError>
    decreases d.len(),
{
    if d.len() == 0 {
        Ok(0)
    } else {
        match scan_digits(d.drop_last(), limit) {
            Err(e) => Err(e),
            Ok(v) => if !is_digit(d.last()) {
                Err(IntParseError::InvalidDigit)
            } else if 10 * v + (d.last() as int - '0' as int) > limit {
                Err(IntParseError::PosOverflow)
            } else {
                Ok((10 * v + (d.last() as int - '0' as int)) as nat)
            },
        }
    }
}

/// How a text reads as an unsigned number no larger than `limit`: the empty
/// text is empty, a lone sign is an invalid digit, and a leading `+` is
/// skipped before the digits are read.
pub open spec fn parse_unsigned_spec(s: Seq<char>, limit: nat) -> Result<nat, IntParseError> {
    if s.len() == 0 {
        Err(IntParseError::Empty)
    } else if (s[0] == '+' || s[0] == '-') && s.len() == 1 {
        Err(IntParseError::InvalidDigit)
    } else if s[0] == '+' {
        scan_digits(s.drop_first(), limit)
    } else {
        scan_digits(s, limit)
    }
}

proof fn lemma_scan_bound(d: Seq<char>, limit: nat)
    ensures
        scan_digits(d, limit) matches Ok(v) ==> v <= limit,
    decreases d.len(),
{
    if d.len() > 0 {
        lemma_scan_bound(d.drop_last(), limit);
    }
}

/// Reads `s` as an unsigned number no larger than `limit` (see
/// [`parse_unsigned_spec`]).
pub fn parse_unsigned(s: &Vec<char>, limit: u64) -> (r: Result<u64, IntParseError>)
    ensures
        match parse_unsigned_spec(s@, limit as nat) {
            Ok(v) => r == Ok::<u64, IntParseError>(v as u64),
            Err(e) => r == Err::<u64, IntParseError>(e),
        },
{
    let n = s.len();
    if n == 0 {
        return Err(IntParseError::Empty);
    }
    if (s[0] == '+' || s[0] == '-') && n == 1 {
        return Err(IntParseError::InvalidDigit);
    }
    let start: usize = if s[0] == '+' { 1 } else { 0 };
    let ghost d = if s@[0] == '+' { s@.drop_first() } else { s@ };
    proof {
        assert(d =~= s@.subrange(start as int, n as int));
        assert(parse_unsigned_spec(s@, limit as nat) == scan_digits(d, limit as nat));
        assert(d.take(0) =~= Seq::<char>::empty());
    }
    let mut acc: u64 = 0;
    let mut i: usize = start;
    while i < n
        invariant
            start <= i <= n,
            n == s@.len(),
            d == s@.subrange(start as int, n as int),
            parse_unsigned_spec(s@, limit as nat) == scan_digits(d, limit as nat),
            scan_digits(d.take(i - start), limit as nat) == Ok::<nat, IntParseError>(acc as nat),
            acc <= limit,
        decreases n - i,
    {
        let c = s[i];
        let ghost k = i - start;
        proof {
            assert(d.take(k + 1).drop_last() =~= d.take(k));
            assert(d.take(k + 1).last() == c);
        }
        if !('0' <= c && c <= '9') {
            proof {
                lemma_scan_prefix_err(d, k + 1, limit as nat);
            }
            return Err(IntParseError::InvalidDigit);
        }
        let digit = (c as u32 - '0' as u32) as u64;
        let next: u128 = acc as u128 * 10 + digit as u128;
        if next > limit as u128 {
            proof {
                lemma_scan_prefix_err(d, k + 1, limit as nat);
            }
            return Err(IntParseError::PosOverflow);
        }
        acc = next as u64;
        i = i + 1;
    }
    proof {
        assert(d.take(n - start) =~= d);
    }
    Ok(acc)
}

/// Once a prefix of the digits fails, reading the whole fails the same way.
proof fn lemma_scan_prefix_err(d: Seq<char>, k: int, limit: nat)
    requires
        0 <= k <= d.len(),
        scan_digits(d.take(k), limit) is Err,
    ensures
        scan_digits(d, limit) == scan_digits(d.take(k), limit),
    decreases d.len() - k,
{
    if k == d.len() {
        assert(d.take(k) =~= d);
    } else {
        lemma_scan_prefix_err_step(d, k, limit);
        lemma_scan_prefix_err(d, k + 1, limit);
    }
}

proof fn lemma_scan_prefix_err_step(d: Seq<char>, k: int, limit: nat)
    requires
        0 <= k < d.len(),
        scan_digits(d.take(k), limit) is Err,
    ensures
        scan_digits(d.take(k + 1), limit) == scan_digits(d.take(k), limit),
{
    assert(d.take(k + 1).drop_last() =~= d.take(k));
}

/// The message an unreadable number is answered with.
pub open spec fn int_error_message(e: IntParseError) -> Seq<char> {
    match e {
        IntParseError::Empty => "cannot parse integer from empty string"@,
        IntParseError::InvalidDigit => "invalid digit found in string"@,
        IntParseError::PosOverflow => "number too large to fit in target type"@,
    }
}

/// The message of a command without one of its arguments.
pub open spec fn missing_message(name: Seq<char>) -> Seq<char> {
    "{red}Missing argument: "@ + name + "{def}"@
}

/// The argument at position `pos`, or the message that it is missing.
pub fn arg_text(args: &Vec<Vec<char>>, pos: usize, name: &str) -> (r: Result<Vec<char>, String>)
    ensures
        pos < args@.len() ==> (r matches Ok(a) && a@ == args@[pos as int]@),
        pos >= args@.len() ==> (r matches Err(m) && m@ == missing_message(name@)),
{
    if pos < args.len() {
        let mut out: Vec<char> = Vec::new();
        let a = &args[pos];
        let mut i: usize = 0;
        while i < a.len()
            invariant
                i <= a@.len(),
                out@ == a@.take(i as int),
            decreases a@.len() - i,
        {
            out.push(a[i]);
            i = i + 1;
            proof {
                assert(out@ =~= a@.take(i as int));
            }
        }
        proof {
            assert(out@ =~= a@);
        }
        Ok(out)
    } else {
        let mut m = String::from_str("{red}Missing argument: ");
        push_text(&mut m, name);
        push_text(&mut m, "{def}");
        Err(m)
    }
}

/// The argument at position `pos` read as an unsigned number no larger than
/// `limit`, or the message that it is missing or unreadable.
pub fn arg_number(args: &Vec<Vec<char>>, pos: usize, name: &str, limit: u64) -> (r: Result<u64, String>)
    ensures
        pos >= args@.len() ==> (r matches Err(m) && m@ == missing_message(name@)),
        pos < args@.len() ==> match parse_unsigned_spec(args@[pos as int]@, limit as nat) {
            Ok(v) => r == Ok::<u64, String>(v as u64),
            Err(e) => r matches Err(m) && m@ == int_error_message(e),
        },
{
    match arg_text(args, pos, name) {
        Err(m) => Err(m),
        Ok(a) => match parse_unsigned(&a, limit) {
            Ok(v) => Ok(v),
            Err(e) => Err(
                match e {
                    IntParseError::Empty => String::from_str("cannot parse integer from empty string"),
                    IntParseError::InvalidDigit => String::from_str("invalid digit found in string"),
                    IntParseError::PosOverflow => String::from_str("number too large to fit in target type"),
                },
            ),
        },
    }
}


/// Some command of the table is typed so by this player.
pub open spec fn known_command(table: Seq<CommandDef>, cmd: Seq<char>, is_gm: bool) -> bool {
    exists|j: int| 0 <= j < table.len() && command_matches(#[trigger] table[j], cmd, is_gm)
}

/// The answer to an unknown command: a red line naming it, then the help text.
pub open spec fn unknown_command_text(table: Seq<CommandDef>, cmd: Seq<char>, is_gm: bool) -> Seq<char> {
    "{red}Unknown command: "@ + cmd + "{def}\n"@ + help_text(table, is_gm)
}

fn push_chars(s: &mut String, v: &Vec<char>)
    ensures
        final(s)@ == old(s)@ + v@,
{
    let mut i: usize = 0;
    while i < v.len()
        invariant
            i <= v@.len(),
            s@ == old(s)@ + v@.take(i as int),
        decreases v@.len() - i,
    {
        push_char(s, v[i]);
        i = i + 1;
        proof {
            assert(s@ =~= old(s)@ + v@.take(i as int));
        }
    }
    proof {
        assert(v@.take(i as int) =~= v@);
    }
}

/// Parses a command line (the text after `!`) against a command table: an
/// empty line is answered with the help text, an unknown command with a red
/// line naming it followed by the help text, and a known one gives the
/// position of the first command of the table typed so, with the arguments
/// after its name.
pub fn parse_outcome(table: &Vec<CommandDef>, line: &str, is_gm: bool) -> (r: Result<(usize, Vec<Vec<char>>), String>)
    ensures
        line@.len() == 0 ==> (r matches Err(e) && e@ == help_text(table@, is_gm)),
        line@.len() > 0 ==> ({
            let args = command_args(line@);
            let cmd = first_arg(args);
            &&& !known_command(table@, cmd, is_gm) ==> (r matches Err(e) && e@ == unknown_command_text(table@, cmd, is_gm))
            &&& known_command(table@, cmd, is_gm) ==> (r matches Ok((index, rest)) && index < table@.len()
                && command_matches(table@[index as int], cmd, is_gm)
                && (forall|j: int| 0 <= j < index ==> !command_matches(#[trigger] table@[j], cmd, is_gm))
                && views(rest@) == if args.len() > 0 { args.drop_first() } else { Seq::empty() })
        }),
{
    match resolve_command(table, line, is_gm) {
        Resolved::Empty => Err(get_help(table, is_gm)),
        Resolved::Unknown(cmd) => {
            let mut text = String::from_str("{red}Unknown command: ");
            push_chars(&mut text, &cmd);
            push_text(&mut text, "{def}\n");
            let help = get_help(table, is_gm);
            push_text(&mut text, help.as_str());
            proof {
                reveal_strlit("{red}Unknown command: ");
                reveal_strlit("{def}\n");
                assert(text@ =~= unknown_command_text(table@, cmd@, is_gm));
            }
            Err(text)
        },
        Resolved::Found { index, args } => Ok((index, args)),
    }
}

} // verus!
