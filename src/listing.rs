//! What a listing of the registry shows: aliases alone, or table rows.
use vstd::prelude::*;
use vstd::string::*;

use crate::script::{displayed, texts, Script, ScriptView};
use crate::text::{escape_free, escapes_shown, lemma_escapes_shown_free, show_escapes};

verus! {

/// One row of a listing: the alias, the tags joined by `, `, the
/// description, and the command as shown.
#[derive(Debug)]
pub struct ScriptRow {
    pub alias: String,
    pub tags: String,
    pub description: String,
    pub command: String,
}

/// The mathematical value of a [`ScriptRow`].
pub struct RowView {
    pub alias: Seq<char>,
    pub tags: Seq<char>,
    pub description: Seq<char>,
    pub command: Seq<char>,
}

impl View for ScriptRow {
    type V = RowView;

    open spec fn view(&self) -> RowView {
        RowView {
            alias: self.alias@,
            tags: self.tags@,
            description: self.description@,
            command: self.command@,
        }
    }
}

/// How many of the requested tags (a tag requested twice counts twice) are
/// among `tags`.
pub open spec fn hits(requested: Seq<Seq<char>>, tags: Seq<Seq<char>>) -> nat
    decreases requested.len(),
{
    if requested.len() == 0 {
        0
    } else {
        hits(requested.drop_last(), tags) + if tags.contains(requested.last()) {
            1nat
        } else {
            0nat
        }
    }
}

/// How many times a listing names a script with `tags`: once without a
/// filter; with one, once for each requested tag that the script has.
pub open spec fn copies(filter: Option<Seq<Seq<char>>>, tags: Option<Seq<Seq<char>>>) -> nat {
    match filter {
        None => 1,
        Some(requested) => match tags {
            Some(t) => hits(requested, t),
            None => 0,
        },
    }
}

/// The texts of `t` with `, ` between each two.
pub open spec fn joined(t: Seq<Seq<char>>) -> Seq<char>
    decreases t.len(),
{
    if t.len() == 0 {
        Seq::empty()
    } else if t.len() == 1 {
        t[0]
    } else {
        joined(t.drop_last()) + ", "@ + t.last()
    }
}

/// The aliases that a listing names, in the order of the entries.
pub open spec fn alias_listing(
    s: Seq<(Seq<char>, ScriptView)>,
    filter: Option<Seq<Seq<char>>>,
) -> Seq<Seq<char>>
    decreases s.len(),
{
    if s.len() == 0 {
        Seq::empty()
    } else {
        alias_listing(s.drop_last(), filter) + Seq::new(
            copies(filter, s.last().1.tags),
            |_i: int| s.last().0,
        )
    }
}

/// The row that shows the script `v` under `k`.
pub open spec fn row_of(k: Seq<char>, v: ScriptView, full: bool, width: nat) -> RowView {
    RowView {
        alias: k,
        tags: match v.tags {
            Some(t) => joined(t),
            None => Seq::empty(),
        },
        description: match v.description {
            Some(d) => d,
            None => Seq::empty(),
        },
        command: displayed(v.command, full, width),
    }
}

/// The rows of a listing, in the order of the entries.
pub open spec fn row_listing(
    s: Seq<(Seq<char>, ScriptView)>,
    filter: Option<Seq<Seq<char>>>,
    full: bool,
    width: nat,
) -> Seq<RowView>
    decreases s.len(),
{
    if s.len() == 0 {
        Seq::empty()
    } else {
        row_listing(s.drop_last(), filter, full, width) + Seq::new(
            copies(filter, s.last().1.tags),
            |_i: int| row_of(s.last().0, s.last().1, full, width),
        )
    }
}

/// Whether `x` is among the texts of `v`.
fn contains_text(v: &Vec<String>, x: &String) -> (r: bool)
    ensures
        r == texts(v@).contains(x@),
{
    let mut i: usize = 0;
    while i < v.len()
        invariant
            0 <= i <= v.len(),
            forall|j: int| 0 <= j < i ==> texts(v@)[j] != x@,
        decreases v.len() - i,
    {
        if v[i] == *x {
            assert(texts(v@)[i as int] == x@);
            return true;
        }
        i = i + 1;
    }
    false
}

fn count_hits(requested: &Vec<String>, tags: &Vec<String>) -> (r: usize)
    ensures
        r == hits(texts(requested@), texts(tags@)),
{
    let ghost f = texts(requested@);
    let mut n: usize = 0;
    let mut i: usize = 0;
    while i < requested.len()
        invariant
            0 <= i <= requested.len(),
            f == texts(requested@),
            n <= i,
            n == hits(f.take(i as int), texts(tags@)),
        decreases requested.len() - i,
    {
        assert(f.take(i + 1).drop_last() =~= f.take(i as int));
        if contains_text(tags, &requested[i]) {
            n = n + 1;
        }
        i = i + 1;
    }
    assert(f.take(requested.len() as int) =~= f);
    n
}

/// How many times a listing with `filter` names the script `s`.
pub fn copies_of(filter: &Option<Vec<String>>, s: &Script) -> (r: usize)
    ensures
        r == copies(crate::script::opt_texts(*filter), s@.tags),
{
    match filter {
        None => 1,
        Some(requested) => match &s.tags {
            Some(t) => count_hits(requested, t),
            None => 0,
        },
    }
}

/// The tags joined by `, `.
pub fn join_tags(t: &Vec<String>) -> (r: String)
    ensures
        r@ == joined(texts(t@)),
{
    let ghost f = texts(t@);
    let mut r = String::new();
    let mut i: usize = 0;
    while i < t.len()
        invariant
            0 <= i <= t.len(),
            f == texts(t@),
            r@ == joined(f.take(i as int)),
        decreases t.len() - i,
    {
        assert(f.take(i + 1).drop_last() =~= f.take(i as int));
        if i > 0 {
            r.append(", ");
        }
        r.append(t[i].as_str());
        i = i + 1;
    }
    assert(f.take(t.len() as int) =~= f);
    r
}

/// The cells of a row as a table draws them: alias, tags, description,
/// command, each escape character shown as a visible symbol.
pub open spec fn drawn_cells(r: RowView) -> Seq<Seq<char>> {
    seq![
        escapes_shown(r.alias),
        escapes_shown(r.tags),
        escapes_shown(r.description),
        escapes_shown(r.command),
    ]
}

/// The titles over the columns of a listing.
pub open spec fn title_cells() -> Seq<Seq<char>> {
    seq!["Alias"@, "Tag(s)"@, "Description"@, "Command"@]
}

/// The text of a table with the given titles and rows of cells, drawn in
/// prettytable's default format.
pub uninterp spec fn table_text(titles: Seq<Seq<char>>, rows: Seq<Seq<Seq<char>>>) -> Seq<char>;

/// Relies on prettytable's `Table` in its default format, turned into text
/// by its `Display` impl: the text depends on the titles and cells alone.
/// A cell must not hold an escape character: prettytable reads one as the
/// start of a control sequence, and its width check can then fail.
#[verifier::external_body]
fn draw_table(titles: &Vec<String>, rows: &Vec<Vec<String>>) -> (r: String)
    requires
        forall|i: int| 0 <= i < titles.len() ==> escape_free(#[trigger] titles@[i]@),
        forall|i: int, j: int|
            0 <= i < rows.len() && 0 <= j < rows@[i].len() ==> escape_free(
                #[trigger] rows@[i]@[j]@,
            ),
    ensures
        r@ == table_text(texts(titles@), rows@.map_values(|v: Vec<String>| texts(v@))),
{
    let row = |cells: &Vec<String>| {
        prettytable::Row::new(cells.iter().map(|c| prettytable::Cell::new(c)).collect())
    };
    let mut table = prettytable::Table::new();
    table.set_format(*prettytable::format::consts::FORMAT_DEFAULT);
    table.set_titles(row(titles));
    for r in rows {
        table.add_row(row(r));
    }
    table.to_string()
}

/// The listing as a table under the titles `Alias`, `Tag(s)`, `Description`
/// and `Command`. An escape character in a cell is drawn as a visible symbol,
/// so that no cell starts a terminal control sequence.
pub fn render_rows(rows: Vec<ScriptRow>) -> (r: String)
    ensures
        r@ == table_text(title_cells(), rows@.map_values(|x: ScriptRow| drawn_cells(x@))),
{
    let titles = vec![
        String::from_str("Alias"),
        String::from_str("Tag(s)"),
        String::from_str("Description"),
        String::from_str("Command"),
    ];
    assert(texts(titles@) =~= title_cells());
    proof {
        reveal_strlit("Alias");
        reveal_strlit("Tag(s)");
        reveal_strlit("Description");
        reveal_strlit("Command");
        assert forall|i: int| 0 <= i < titles.len() implies escape_free(#[trigger] titles@[i]@) by {
            assert(titles@[i]@ == title_cells()[i]);
        }
    }
    let ghost input = rows@.map_values(|x: ScriptRow| drawn_cells(x@));
    let mut cells: Vec<Vec<String>> = Vec::new();
    for r in it: rows
        invariant
            input == it.seq().map_values(|x: ScriptRow| drawn_cells(x@)),
            cells@.map_values(|v: Vec<String>| texts(v@)) == input.take(it.index() as int),
            cells.len() == it.index(),
            forall|a: int, b: int|
                0 <= a < cells.len() && 0 <= b < cells@[a].len() ==> escape_free(
                    #[trigger] cells@[a]@[b]@,
                ),
    {
        let ghost rv = r@;
        proof {
            assert(input[it.index() as int] == drawn_cells(rv));
        }
        let ghost prev = cells@.map_values(|v: Vec<String>| texts(v@));
        let line = vec![
            show_escapes(r.alias.as_str()),
            show_escapes(r.tags.as_str()),
            show_escapes(r.description.as_str()),
            show_escapes(r.command.as_str()),
        ];
        assert(texts(line@) =~= drawn_cells(rv));
        assert(forall|b: int| 0 <= b < line.len() ==> escape_free(#[trigger] line@[b]@)) by {
            assert(line@[0]@ == escapes_shown(rv.alias));
            assert(line@[1]@ == escapes_shown(rv.tags));
            assert(line@[2]@ == escapes_shown(rv.description));
            assert(line@[3]@ == escapes_shown(rv.command));
            lemma_escapes_shown_free(rv.alias);
            lemma_escapes_shown_free(rv.tags);
            lemma_escapes_shown_free(rv.description);
            lemma_escapes_shown_free(rv.command);
        }
        cells.push(line);
        assert(cells@.map_values(|v: Vec<String>| texts(v@)) =~= prev.push(drawn_cells(rv)));
        assert(input.take(it.index() + 1) =~= input.take(it.index() as int).push(drawn_cells(rv)));
    }
    assert(input.take(input.len() as int) =~= input);
    draw_table(&titles, &cells)
}

} // verus!
