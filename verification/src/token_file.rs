//! The token file the front ends keep their sign-ins in: one line per
//! account, the platform's name, a colon, then the token.

use vstd::prelude::*;

use crate::text::{
    is_plain_line, join_lines, lemma_first_index_unique, lemma_lines_of_append, lemma_lines_of_join, lines_of,
    split_lines, split_once, split_once_spec, views,
};

verus! {

/// The line an account is written as.
pub open spec fn entry_line(name: Seq<char>, token: Seq<char>) -> Seq<char> {
    name + seq![':'] + token
}

/// The lines of a list of accounts.
pub open spec fn entry_lines(entries: Seq<(Seq<char>, Seq<char>)>) -> Seq<Seq<char>> {
    entries.map_values(|e: (Seq<char>, Seq<char>)| entry_line(e.0, e.1))
}

/// The file a list of accounts is written as: one line each, in order.
pub open spec fn file_of(entries: Seq<(Seq<char>, Seq<char>)>) -> Seq<char> {
    join_lines(entry_lines(entries))
}

/// The accounts a list of lines holds: each line with a colon, split at its
/// first colon; lines without one are skipped.
pub open spec fn entries_of_lines(ls: Seq<Seq<char>>) -> Seq<(Seq<char>, Seq<char>)>
    decreases ls.len(),
{
    if ls.len() == 0 {
        seq![]
    } else {
        let rest = entries_of_lines(ls.drop_first());
        match split_once_spec(ls[0], ':') {
            Some(e) => seq![e] + rest,
            None => rest,
        }
    }
}

/// The accounts a file holds.
pub open spec fn entries_of(text: Seq<char>) -> Seq<(Seq<char>, Seq<char>)> {
    entries_of_lines(lines_of(text))
}

/// An account that can be written and read back: a name without colons or
/// line breaks, a token on one line that does not end in a carriage return.
pub open spec fn is_storable(name: Seq<char>, token: Seq<char>) -> bool {
    &&& !name.contains(':')
    &&& !name.contains('\n')
    &&& is_plain_line(token)
}

/// The account on one line, if the line has a colon.
pub open spec fn entry_of_line(l: Seq<char>) -> Seq<(Seq<char>, Seq<char>)> {
    match split_once_spec(l, ':') {
        Some(e) => seq![e],
        None => seq![],
    }
}

/// One more line adds its account, if any, after the others.
pub proof fn lemma_entries_of_lines_push(ls: Seq<Seq<char>>, l: Seq<char>)
    ensures
        entries_of_lines(ls.push(l)) == entries_of_lines(ls) + entry_of_line(l),
    decreases ls.len(),
{
    if ls.len() == 0 {
        assert(ls.push(l).drop_first() =~= Seq::<Seq<char>>::empty());
        assert(entries_of_lines(ls.push(l).drop_first()) =~= Seq::<(Seq<char>, Seq<char>)>::empty());
        assert(entries_of_lines(ls) =~= Seq::<(Seq<char>, Seq<char>)>::empty());
        assert(entries_of_lines(ls.push(l)) =~= entries_of_lines(ls) + entry_of_line(l));
    } else {
        assert(ls.push(l).drop_first() =~= ls.drop_first().push(l));
        lemma_entries_of_lines_push(ls.drop_first(), l);
        assert(entries_of_lines(ls.push(l)) =~= entries_of_lines(ls) + entry_of_line(l));
    }
}

/// The accounts in a file, in order (the lines without a colon skipped).
pub fn read_entries(text: &str) -> (r: Vec<(String, String)>)
    ensures
        r@.len() == entries_of(text@).len(),
        forall|i: int|
            0 <= i < r@.len() ==> (#[trigger] r@[i]).0@ == entries_of(text@)[i].0 && r@[i].1@
                == entries_of(text@)[i].1,
{
    let lines = split_lines(text);
    let ghost ls = views(lines@);
    let mut r: Vec<(String, String)> = Vec::new();
    for k in 0..lines.len()
        invariant
            ls == views(lines@),
            ls == lines_of(text@),
            r@.len() == entries_of_lines(ls.take(k as int)).len(),
            forall|i: int|
                0 <= i < r@.len() ==> (#[trigger] r@[i]).0@ == entries_of_lines(ls.take(k as int))[i].0
                    && r@[i].1@ == entries_of_lines(ls.take(k as int))[i].1,
    {
        proof {
            assert(ls.take(k + 1) =~= ls.take(k as int).push(ls[k as int]));
            lemma_entries_of_lines_push(ls.take(k as int), ls[k as int]);
        }
        if let Some(e) = split_once(lines[k].as_str(), ':') {
            r.push(e);
        }
    }
    assert(ls.take(lines@.len() as int) =~= ls);
    r
}

/// An account line splits back into its name and token.
proof fn lemma_split_entry_line(name: Seq<char>, token: Seq<char>)
    requires
        !name.contains(':'),
    ensures
        split_once_spec(entry_line(name, token), ':') == Some((name, token)),
{
    let l = entry_line(name, token);
    assert forall|j: int| 0 <= j < name.len() implies l[j] != ':' by {
        assert(l[j] == name[j]);
        if l[j] == ':' {
            assert(name.contains(':'));
        }
    }
    assert(l[name.len() as int] == ':');
    lemma_first_index_unique(l, ':', name.len() as int);
    assert(l.take(name.len() as int) =~= name);
    assert(l.skip(name.len() as int + 1) =~= token);
}

/// Reading a written list of accounts gives the list back.
pub proof fn lemma_read_back(entries: Seq<(Seq<char>, Seq<char>)>)
    requires
        forall|i: int| 0 <= i < entries.len() ==> is_storable(#[trigger] entries[i].0, entries[i].1),
    ensures
        entries_of(file_of(entries)) == entries,
    decreases entries.len(),
{
    let ls = entry_lines(entries);
    assert forall|k: int| 0 <= k < ls.len() implies is_plain_line(#[trigger] ls[k]) by {
        let (n, t) = entries[k];
        assert(is_storable(n, t));
        let l = entry_line(n, t);
        assert(ls[k] == l);
        if l.contains('\n') {
            let j = choose|j: int| 0 <= j < l.len() && l[j] == '\n';
            if j < n.len() {
                assert(n[j] == '\n');
            } else if j > n.len() {
                assert(t[j - n.len() - 1] == '\n');
            }
        }
        if t.len() > 0 {
            assert(l.last() == t.last());
        }
    }
    lemma_lines_of_join(ls);
    lemma_entries_of_entry_lines(entries);
}

proof fn lemma_entries_of_entry_lines(entries: Seq<(Seq<char>, Seq<char>)>)
    requires
        forall|i: int| 0 <= i < entries.len() ==> is_storable(#[trigger] entries[i].0, entries[i].1),
    ensures
        entries_of_lines(entry_lines(entries)) == entries,
    decreases entries.len(),
{
    if entries.len() > 0 {
        let ls = entry_lines(entries);
        assert(ls.drop_first() =~= entry_lines(entries.drop_first()));
        assert forall|i: int| 0 <= i < entries.drop_first().len() implies is_storable(
            #[trigger] entries.drop_first()[i].0,
            entries.drop_first()[i].1,
        ) by {
            assert(entries.drop_first()[i] == entries[i + 1]);
        }
        lemma_entries_of_entry_lines(entries.drop_first());
        assert(is_storable(entries[0].0, entries[0].1));
        lemma_split_entry_line(entries[0].0, entries[0].1);
        assert(entries =~= seq![entries[0]] + entries.drop_first());
    }
}


/// The accounts of two lists of lines, one after the other.
proof fn lemma_entries_of_lines_append(l1: Seq<Seq<char>>, l2: Seq<Seq<char>>)
    ensures
        entries_of_lines(l1 + l2) == entries_of_lines(l1) + entries_of_lines(l2),
    decreases l1.len(),
{
    if l1.len() == 0 {
        assert(l1 + l2 =~= l2);
        assert(entries_of_lines(l1) + entries_of_lines(l2) =~= entries_of_lines(l2));
    } else {
        assert((l1 + l2).drop_first() =~= l1.drop_first() + l2);
        assert((l1 + l2)[0] == l1[0]);
        lemma_entries_of_lines_append(l1.drop_first(), l2);
        assert(entries_of_lines(l1 + l2) =~= entries_of_lines(l1) + entries_of_lines(l2));
    }
}

/// Appending: accounts written after a file that is empty or ends in a line
/// break are read after the accounts of that file.
pub proof fn lemma_appended_entries(text: Seq<char>, entries: Seq<(Seq<char>, Seq<char>)>)
    requires
        text.len() == 0 || text.last() == '\n',
        forall|i: int| 0 <= i < entries.len() ==> is_storable(#[trigger] entries[i].0, entries[i].1),
    ensures
        entries_of(text + file_of(entries)) == entries_of(text) + entries,
{
    lemma_lines_of_append(text, file_of(entries));
    lemma_entries_of_lines_append(lines_of(text), lines_of(file_of(entries)));
    lemma_read_back(entries);
}

} // verus!
