//! Audio sources that a listener can pick, read from the text that the
//! sound server's command-line client prints.

use vstd::prelude::*;
use crate::text::{
    lemma_nonempty_concat, lemma_split_concat, lemma_split_nonempty, lemma_split_single, Sep,
    is_white_space, nonempty, chars_of, equals_at, has_prefix, line_ranges, lines_of, second_word, split_ranges, split_where,
    starts_with_at, substring, trim, trim_range, words_of,
};

verus! {

/// An audio stream or device that can be captured: a label for people and
/// the node the sound server knows it by.
pub struct Source {
    pub name: String,
    pub node_name: String,
}

/// A source as a pair of character sequences: the label, then the node.
pub type SourceView = (Seq<char>, Seq<char>);

impl View for Source {
    type V = SourceView;

    open spec fn view(&self) -> SourceView {
        (self.name@, self.node_name@)
    }
}

impl Clone for Source {
    fn clone(&self) -> (r: Self)
        ensures
            r@ == self@,
    {
        Source { name: self.name.clone(), node_name: self.node_name.clone() }
    }
}

/// How two names compare.
#[derive(Clone, Copy, Debug, PartialEq, Eq, Structural)]
pub enum NameOrder {
    Less,
    Equal,
    Greater,
}

/// Lexicographic order of character sequences by code point, which is the
/// order of `str`'s comparison.
pub open spec fn lex_order(a: Seq<char>, b: Seq<char>) -> NameOrder
    decreases a.len(),
{
    if a.len() == 0 {
        if b.len() == 0 {
            NameOrder::Equal
        } else {
            NameOrder::Less
        }
    } else if b.len() == 0 {
        NameOrder::Greater
    } else if (a[0] as u32) < (b[0] as u32) {
        NameOrder::Less
    } else if (a[0] as u32) > (b[0] as u32) {
        NameOrder::Greater
    } else {
        lex_order(a.drop_first(), b.drop_first())
    }
}

impl Source {
    /// How this source is ordered against `other` in a list: by name alone.
    pub fn compare_names(&self, other: &Source) -> (r: NameOrder)
        ensures
            r == lex_order(self.name@, other.name@),
    {
        let a = chars_of(self.name.as_str());
        let b = chars_of(other.name.as_str());
        let mut i: usize = 0;
        assert(a@.skip(0) =~= a@);
        assert(b@.skip(0) =~= b@);
        while i < a.len() && i < b.len()
            invariant
                i <= a.len(),
                i <= b.len(),
                a@ == self.name@,
                b@ == other.name@,
                lex_order(a@, b@) == lex_order(a@.skip(i as int), b@.skip(i as int)),
            decreases a.len() - i,
        {
            let x = a[i] as u32;
            let y = b[i] as u32;
            assert(a@.skip(i as int)[0] == a@[i as int]);
            assert(b@.skip(i as int)[0] == b@[i as int]);
            if x < y {
                return NameOrder::Less;
            }
            if x > y {
                return NameOrder::Greater;
            }
            assert(a@.skip(i as int).drop_first() =~= a@.skip(i + 1));
            assert(b@.skip(i as int).drop_first() =~= b@.skip(i + 1));
            i = i + 1;
        }
        if i < a.len() {
            NameOrder::Greater
        } else if i < b.len() {
            NameOrder::Less
        } else {
            NameOrder::Equal
        }
    }

    /// The text shown for this source in a list: its name.
    pub fn label(&self) -> (r: String)
        ensures
            r@ == self.name@,
    {
        self.name.clone()
    }
}

/// The views of a list of sources.
pub open spec fn views(v: Seq<Source>) -> Seq<SourceView> {
    v.map_values(|s: Source| s@)
}

pub open spec fn entire_system() -> Seq<char> {
    "Entire System"@
}

pub open spec fn own_sink() -> Seq<char> {
    "netshare_sink"@
}

pub open spec fn monitor_suffix() -> Seq<char> {
    ".monitor"@
}

/// The whole-system source that one line of the list of sinks offers: the
/// monitor of the sink named by the line's second word, unless that sink
/// is this program's own.
pub open spec fn sink_line_source(line: Seq<char>) -> Option<SourceView> {
    let w = words_of(line);
    if w.len() >= 2 && w[1] != own_sink() {
        Some((entire_system(), w[1] + monitor_suffix()))
    } else {
        None
    }
}

proof fn lemma_nonempty_single(x: Seq<char>)
    requires
        x.len() > 0,
    ensures
        nonempty(seq![x]) == seq![x],
{
    assert(seq![x].drop_last() =~= Seq::<Seq<char>>::empty());
    assert(nonempty(Seq::<Seq<char>>::empty()) == Seq::<Seq<char>>::empty());
    assert(Seq::<Seq<char>>::empty().push(x) =~= seq![x]);
}

/// A sink line whose first two words are `id` and `name` (followed by more
/// or not) offers the monitor of the sink `name`, as "Entire System",
/// unless `name` is this program's own sink; the first word plays no part.
pub proof fn law_sink_line_offers_its_monitor(
    id: Seq<char>,
    gap: char,
    name: Seq<char>,
    gap2: char,
    rest: Seq<char>,
)
    requires
        id.len() > 0,
        name.len() > 0,
        forall|i: int| 0 <= i < id.len() ==> !is_white_space(#[trigger] id[i]),
        forall|i: int| 0 <= i < name.len() ==> !is_white_space(#[trigger] name[i]),
        is_white_space(gap),
        is_white_space(gap2),
    ensures
        sink_line_source(id + seq![gap] + name + seq![gap2] + rest) == if name == "netshare_sink"@ {
            None
        } else {
            Some(("Entire System"@, name + ".monitor"@))
        },
        sink_line_source(id + seq![gap] + name) == if name == "netshare_sink"@ {
            None
        } else {
            Some(("Entire System"@, name + ".monitor"@))
        },
{
    let w = Sep::White;
    lemma_split_single(id, w);
    lemma_split_single(name, w);
    lemma_split_concat(name, gap2, rest, w);
    lemma_split_concat(id, gap, name + seq![gap2] + rest, w);
    lemma_split_concat(id, gap, name, w);
    assert(id + seq![gap] + name + seq![gap2] + rest =~= id + seq![gap] + (name + seq![gap2] + rest));
    lemma_nonempty_single(id);
    lemma_nonempty_single(name);
    let r = split_where(rest, w);
    lemma_nonempty_concat(seq![id], seq![name] + r);
    lemma_nonempty_concat(seq![name], r);
    lemma_nonempty_concat(seq![id], seq![name]);
    assert((seq![id] + (seq![name] + nonempty(r)))[1] == name);
    assert((seq![id] + seq![name])[1] == name);
}

/// The whole-system sources of a list of sink lines, in order.
pub open spec fn sink_sources(lines: Seq<Seq<char>>) -> Seq<SourceView>
    decreases lines.len(),
{
    if lines.len() == 0 {
        seq![]
    } else {
        let prev = sink_sources(lines.drop_last());
        match sink_line_source(lines.last()) {
            Some(s) => prev.push(s),
            None => prev,
        }
    }
}

/// Every whole-system source is called "Entire System", and none of them
/// captures this program's own sink.
pub proof fn law_own_sink_never_offered(lines: Seq<Seq<char>>)
    ensures
        forall|i: int|
            0 <= i < sink_sources(lines).len() ==> (#[trigger] sink_sources(lines)[i]).0
                == entire_system() && sink_sources(lines)[i].1 != own_sink() + monitor_suffix(),
    decreases lines.len(),
{
    if lines.len() > 0 {
        let prev = sink_sources(lines.drop_last());
        law_own_sink_never_offered(lines.drop_last());
        let w = words_of(lines.last());
        if w.len() >= 2 && w[1] != own_sink() {
            let node = w[1] + monitor_suffix();
            let own = own_sink() + monitor_suffix();
            if node == own {
                assert(node.len() == w[1].len() + monitor_suffix().len());
                assert(own.len() == own_sink().len() + monitor_suffix().len());
                assert(node.subrange(0, w[1].len() as int) =~= w[1]);
                assert(own.subrange(0, own_sink().len() as int) =~= own_sink());
                assert(w[1].len() == own_sink().len());
                assert(false);
            }
            assert(node != own);
            assert(sink_sources(lines) == prev.push((entire_system(), w[1] + monitor_suffix())));
            assert forall|i: int| 0 <= i < sink_sources(lines).len() implies (#[trigger] sink_sources(
                lines,
            )[i]).0 == entire_system() && sink_sources(lines)[i].1 != own_sink()
                + monitor_suffix() by {
                if i < prev.len() {
                    assert(sink_sources(lines)[i] == prev[i]);
                }
            }
        } else {
            assert(sink_sources(lines) == prev);
        }
    }
}

/// The whole-system sources that the short list of sinks `listing` offers.
pub fn sinks_to_sources(listing: &str) -> (r: Vec<Source>)
    ensures
        views(r@) == sink_sources(lines_of(listing@)),
{
    let text = chars_of(listing);
    let lines = line_ranges(&text);
    let own = chars_of("netshare_sink");
    let mut r: Vec<Source> = Vec::new();
    let mut k: usize = 0;
    while k < lines.len()
        invariant
            text@ == listing@,
            own@ == own_sink(),
            lines@.len() == lines_of(text@).len(),
            k <= lines@.len(),
            forall|j: int|
                0 <= j < lines@.len() ==> (#[trigger] lines@[j]).0 <= lines@[j].1 <= text.len()
                    && text@.subrange(lines@[j].0 as int, lines@[j].1 as int) == lines_of(text@)[j],
            views(r@) == sink_sources(lines_of(text@).take(k as int)),
        decreases lines.len() - k,
    {
        let ghost all = lines_of(text@);
        assert(all.take(k + 1).drop_last() =~= all.take(k as int));
        assert(all.take(k + 1).last() == all[k as int]);
        let (a, b) = lines[k];
        match second_word(&text, a, b) {
            Some((c, d)) => {
                if !equals_at(&text, c, d, &own) {
                    let mut node = substring(listing, c, d);
                    node.append(".monitor");
                    let src = Source { name: "Entire System".to_owned(), node_name: node };
                    let ghost before = r@;
                    r.push(src);
                    assert(views(r@) =~= views(before).push(src@));
                }
            },
            None => {},
        }
        k = k + 1;
    }
    assert(lines_of(text@).take(lines.len() as int) =~= lines_of(text@));
    r
}

pub open spec fn input_header() -> Seq<char> {
    "Sink Input #"@
}

pub open spec fn app_name_key() -> Seq<char> {
    "application.name = \""@
}

pub open spec fn media_name_key() -> Seq<char> {
    "media.name = \""@
}

/// The text between the first and the second double quote of `line`, or
/// up to its end where there is no second one.
pub open spec fn quoted(line: Seq<char>) -> Option<Seq<char>> {
    let p = split_where(line, Sep::Char('"'));
    if p.len() > 1 {
        Some(p[1])
    } else {
        None
    }
}

/// What a scan of the list of sink inputs holds between lines: the id of
/// the current input, its name, and the sources found so far.
pub type InputScan = (Option<Seq<char>>, Option<Seq<char>>, Seq<SourceView>);

/// `found` with the current input added when both its id and name are known.
pub open spec fn flush(id: Option<Seq<char>>, name: Option<Seq<char>>, found: Seq<SourceView>) -> Seq<SourceView> {
    match (id, name) {
        (Some(i), Some(n)) => found.push((n, i)),
        _ => found,
    }
}

/// One line of the list of sink inputs: a header starts a new input, an
/// application name always names it, a media name only when no name is
/// known yet.
pub open spec fn input_step(st: InputScan, raw: Seq<char>) -> InputScan {
    let line = trim(raw);
    if has_prefix(line, input_header()) {
        (Some(line.skip(input_header().len() as int)), None, flush(st.0, st.1, st.2))
    } else if has_prefix(line, app_name_key()) {
        if quoted(line) is Some {
            (st.0, quoted(line), st.2)
        } else {
            st
        }
    } else if st.1 is None && has_prefix(line, media_name_key()) && quoted(line) is Some {
        (st.0, quoted(line), st.2)
    } else {
        st
    }
}

/// The quoted value of a line is the text between its first two double
/// quotes, or from the first one to the end where there is no second; a
/// line without a double quote has none.
pub proof fn law_quoted_is_text_between_quotes(k: Seq<char>, v: Seq<char>, w: Seq<char>)
    requires
        forall|i: int| 0 <= i < k.len() ==> #[trigger] k[i] != '"',
        forall|i: int| 0 <= i < v.len() ==> #[trigger] v[i] != '"',
    ensures
        quoted(k + seq!['"'] + v + seq!['"'] + w) == Some(v),
        quoted(k + seq!['"'] + v) == Some(v),
        quoted(k) == None::<Seq<char>>,
{
    let q = Sep::Char('"');
    lemma_split_single(k, q);
    lemma_split_single(v, q);
    lemma_split_concat(v, '"', w, q);
    lemma_split_concat(k, '"', v + seq!['"'] + w, q);
    lemma_split_concat(k, '"', v, q);
    assert(k + seq!['"'] + v + seq!['"'] + w =~= k + seq!['"'] + (v + seq!['"'] + w));
    lemma_split_nonempty(w, q);
    assert((seq![k] + (seq![v] + split_where(w, q)))[1] == v);
    assert((seq![k] + seq![v])[1] == v);
}

/// A line that starts with a key ending in a double quote has a quoted
/// value.
proof fn lemma_quote_after_key(line: Seq<char>, key: Seq<char>)
    requires
        has_prefix(line, key),
        key.len() >= 1,
        key[key.len() - 1] == '"',
    ensures
        quoted(line) is Some,
{
    let n = key.len() - 1;
    assert(line[n] == line.subrange(0, key.len() as int)[n]);
    assert(line =~= line.take(n) + seq!['"'] + line.skip(n + 1));
    lemma_split_concat(line.take(n), '"', line.skip(n + 1), Sep::Char('"'));
    lemma_split_nonempty(line.take(n), Sep::Char('"'));
    lemma_split_nonempty(line.skip(n + 1), Sep::Char('"'));
}

/// A header line starts a new stream whose id is what follows
/// "Sink Input #", with no name yet, after keeping the stream before it
/// when it had both an id and a name.
pub proof fn law_header_starts_a_stream(st: InputScan, raw: Seq<char>)
    requires
        has_prefix(trim(raw), "Sink Input #"@),
    ensures
        input_step(st, raw) == (Some(trim(raw).skip(12)), None::<Seq<char>>, match (st.0, st.1) {
            (Some(i), Some(n)) => st.2.push((n, i)),
            _ => st.2,
        }),
{
    reveal_strlit("Sink Input #");
}

/// A line of a sink-input block that is not a header, not an
/// `application.name` line and not a `media.name` line (any other
/// property, such as `application.process.id`) changes nothing.
pub proof fn law_other_properties_keep_the_stream(st: InputScan, raw: Seq<char>)
    requires
        !has_prefix(trim(raw), "Sink Input #"@),
        !has_prefix(trim(raw), "application.name = \""@),
        !has_prefix(trim(raw), "media.name = \""@),
    ensures
        input_step(st, raw) == st,
{
}

/// An `application.name` line names the current stream by its quoted
/// value, whatever name it had, and keeps its id and the sources found.
pub proof fn law_application_name_names_the_stream(st: InputScan, raw: Seq<char>)
    requires
        has_prefix(trim(raw), "application.name = \""@),
    ensures
        quoted(trim(raw)) is Some,
        input_step(st, raw) == (st.0, quoted(trim(raw)), st.2),
{
    let line = trim(raw);
    reveal_strlit("application.name = \"");
    reveal_strlit("Sink Input #");
    assert(line[0] == line.subrange(0, 20)[0]);
    if has_prefix(line, "Sink Input #"@) {
        assert(line[0] == line.subrange(0, 12)[0]);
    }
    lemma_quote_after_key(line, "application.name = \""@);
}

/// A `media.name` line names the current stream only when it has no name
/// yet, and keeps its id and the sources found.
pub proof fn law_media_name_only_when_unnamed(st: InputScan, raw: Seq<char>)
    requires
        has_prefix(trim(raw), "media.name = \""@),
    ensures
        quoted(trim(raw)) is Some,
        input_step(st, raw) == (st.0, if st.1 is None {
            quoted(trim(raw))
        } else {
            st.1
        }, st.2),
{
    let line = trim(raw);
    reveal_strlit("media.name = \"");
    reveal_strlit("application.name = \"");
    reveal_strlit("Sink Input #");
    assert(line[0] == line.subrange(0, 14)[0]);
    if has_prefix(line, "Sink Input #"@) {
        assert(line[0] == line.subrange(0, 12)[0]);
    }
    if has_prefix(line, "application.name = \""@) {
        assert(line[0] == line.subrange(0, 20)[0]);
    }
    lemma_quote_after_key(line, "media.name = \""@);
}

pub open spec fn input_scan(lines: Seq<Seq<char>>) -> InputScan
    decreases lines.len(),
{
    if lines.len() == 0 {
        (None, None, seq![])
    } else {
        input_step(input_scan(lines.drop_last()), lines.last())
    }
}

/// The application streams that the list of sink inputs names, in order:
/// each input with both an id and a name, the id as its node.
pub open spec fn input_sources(lines: Seq<Seq<char>>) -> Seq<SourceView> {
    let st = input_scan(lines);
    flush(st.0, st.1, st.2)
}

/// The range of the text between the first two double quotes of
/// `text[lo..hi]`, as `quoted` gives it.
fn quoted_range(text: &Vec<char>, lo: usize, hi: usize) -> (r: Option<(usize, usize)>)
    requires
        lo <= hi <= text.len(),
    ensures
        r is Some == quoted(text@.subrange(lo as int, hi as int)) is Some,
        r matches Some((a, b)) ==> a <= b <= text.len() && Some(text@.subrange(a as int, b as int))
            == quoted(text@.subrange(lo as int, hi as int)),
{
    let pieces = split_ranges(text, lo, hi, Sep::Char('"'));
    if pieces.len() > 1 {
        Some(pieces[1])
    } else {
        None
    }
}

/// The text that an optional range of `text` covers.
pub open spec fn range_view(text: Seq<char>, r: Option<(usize, usize)>) -> Option<Seq<char>> {
    match r {
        Some((a, b)) => Some(text.subrange(a as int, b as int)),
        None => None,
    }
}

pub open spec fn range_ok(r: Option<(usize, usize)>, len: nat) -> bool {
    r matches Some((a, b)) ==> a <= b <= len
}

/// Adds the current input to `found` when both its id and its name are known.
fn flush_input(
    listing: &str,
    id: Option<(usize, usize)>,
    name: Option<(usize, usize)>,
    found: &mut Vec<Source>,
)
    requires
        range_ok(id, listing@.len()),
        range_ok(name, listing@.len()),
    ensures
        views(final(found)@) == flush(
            range_view(listing@, id),
            range_view(listing@, name),
            views(old(found)@),
        ),
{
    match (id, name) {
        (Some((a, b)), Some((c, d))) => {
            let src = Source { name: substring(listing, c, d), node_name: substring(listing, a, b) };
            let ghost before = found@;
            found.push(src);
            assert(views(found@) =~= views(before).push(src@));
        },
        _ => {},
    }
}

/// The application streams that the list of sink inputs `listing` names.
pub fn inputs_to_sources(listing: &str) -> (r: Vec<Source>)
    ensures
        views(r@) == input_sources(lines_of(listing@)),
{
    let text = chars_of(listing);
    let lines = line_ranges(&text);
    let header = chars_of("Sink Input #");
    let app_key = chars_of("application.name = \"");
    let media_key = chars_of("media.name = \"");
    let mut id: Option<(usize, usize)> = None;
    let mut name: Option<(usize, usize)> = None;
    let mut found: Vec<Source> = Vec::new();
    let mut k: usize = 0;
    while k < lines.len()
        invariant
            text@ == listing@,
            header@ == input_header(),
            app_key@ == app_name_key(),
            media_key@ == media_name_key(),
            lines@.len() == lines_of(text@).len(),
            k <= lines@.len(),
            forall|j: int|
                0 <= j < lines@.len() ==> (#[trigger] lines@[j]).0 <= lines@[j].1 <= text.len()
                    && text@.subrange(lines@[j].0 as int, lines@[j].1 as int) == lines_of(text@)[j],
            range_ok(id, text@.len()),
            range_ok(name, text@.len()),
            (range_view(text@, id), range_view(text@, name), views(found@)) == input_scan(
                lines_of(text@).take(k as int),
            ),
        decreases lines.len() - k,
    {
        let ghost all = lines_of(text@);
        assert(all.take(k + 1).drop_last() =~= all.take(k as int));
        assert(all.take(k + 1).last() == all[k as int]);
        let (a, b) = lines[k];
        let (ta, tb) = trim_range(&text, a, b);
        let ghost line = text@.subrange(ta as int, tb as int);
        assert(line == trim(all[k as int]));
        if starts_with_at(&text, ta, tb, &header) {
            flush_input(listing, id, name, &mut found);
            assert(line.skip(header.len() as int) =~= text@.subrange(ta + header.len(), tb as int));
            id = Some((ta + header.len(), tb));
            name = None;
        } else if starts_with_at(&text, ta, tb, &app_key) {
            match quoted_range(&text, ta, tb) {
                Some(q) => {
                    name = Some(q);
                },
                None => {},
            }
        } else if name.is_none() && starts_with_at(&text, ta, tb, &media_key) {
            match quoted_range(&text, ta, tb) {
                Some(q) => {
                    name = Some(q);
                },
                None => {},
            }
        }
        k = k + 1;
    }
    assert(lines_of(text@).take(lines.len() as int) =~= lines_of(text@));
    flush_input(listing, id, name, &mut found);
    found
}

/// Everything that can be captured, the whole-system monitors first: from
/// the short list of sinks and from the list of sink inputs, each of which
/// is absent where the sound server could not be asked.
pub open spec fn audio_sources(sinks: Option<Seq<char>>, inputs: Option<Seq<char>>) -> Seq<SourceView> {
    let whole = match sinks {
        Some(t) => sink_sources(lines_of(t)),
        None => seq![],
    };
    let streams = match inputs {
        Some(t) => input_sources(lines_of(t)),
        None => seq![],
    };
    whole + streams
}

/// The sources offered to the listener, the whole-system monitors first.
pub fn load_audio_sources(sinks: Option<&str>, inputs: Option<&str>) -> (r: Vec<Source>)
    ensures
        views(r@) == audio_sources(
            match sinks {
                Some(t) => Some(t@),
                None => None,
            },
            match inputs {
                Some(t) => Some(t@),
                None => None,
            },
        ),
{
    let mut whole = match sinks {
        Some(t) => sinks_to_sources(t),
        None => Vec::new(),
    };
    let mut streams = match inputs {
        Some(t) => inputs_to_sources(t),
        None => Vec::new(),
    };
    let ghost w = whole@;
    let ghost s = streams@;
    whole.append(&mut streams);
    assert(whole@ == w + s);
    assert(views(whole@) =~= views(w) + views(s));
    whole
}

} // verus!
