//! The virtual sink that listeners receive audio from: which stale modules
//! to unload before it is created, what it is created with, and which
//! monitor to capture from by default.

use vstd::prelude::*;
use vstd::string::*;
use crate::source::Source;
use crate::text::{
    lemma_split_concat, lemma_split_nonempty, lemma_split_single, law_lines_split_at_line_feeds, strip_cr, Sep, chars_of, contains_at, equals_at, has_prefix, line_ranges, lines_of, split_ranges,
    split_where, starts_with_at, substring, trim, trim_range, contains_seq,
};

verus! {

/// Proof that the virtual sink was loaded; the sound server unloads it
/// when the program ends.
pub struct NullSinkGuard {}

impl NullSinkGuard {
    /// A guard for the sink, given whether loading it succeeded.
    pub fn new(loaded: bool) -> (r: Option<NullSinkGuard>)
        ensures
            r is Some <==> loaded,
    {
        if loaded {
            Some(NullSinkGuard {  })
        } else {
            None
        }
    }
}

/// The fields of one line of the short list of modules, as `splitn(3, '\t')`
/// yields them: the id, the module's name, and the rest (its arguments);
/// a missing field is empty.
pub open spec fn module_fields(line: Seq<char>) -> (Seq<char>, Seq<char>, Seq<char>) {
    let p = split_where(line, Sep::Char('\t'));
    let module = if p.len() > 1 {
        p[1]
    } else {
        Seq::<char>::empty()
    };
    let args = if p.len() > 2 {
        line.skip((p[0].len() + p[1].len() + 2) as int)
    } else {
        Seq::<char>::empty()
    };
    (p[0], module, args)
}

/// Whether a module belongs to an earlier run: the null sink made for this
/// program, or a loopback into it.
pub open spec fn is_stale_module(module: Seq<char>, args: Seq<char>) -> bool {
    ||| module == "module-null-sink"@ && contains_seq(args, "sink_name=netshare_sink"@)
    ||| module == "module-loopback"@ && contains_seq(args, "sink=netshare_sink"@)
}

/// The ids of the stale modules among `lines`, in order.
pub open spec fn stale_module_ids(lines: Seq<Seq<char>>) -> Seq<Seq<char>>
    decreases lines.len(),
{
    if lines.len() == 0 {
        seq![]
    } else {
        let prev = stale_module_ids(lines.drop_last());
        let (id, module, args) = module_fields(lines.last());
        if is_stale_module(module, args) {
            prev.push(id)
        } else {
            prev
        }
    }
}

/// A module line `id`, tab, `module`, tab, `args` (the arguments may hold
/// more tabs) has those three fields, and its id is to be unloaded exactly
/// when it is the null sink named for this program or a loopback into it.
pub proof fn law_module_line(id: Seq<char>, module: Seq<char>, args: Seq<char>)
    requires
        forall|i: int| 0 <= i < id.len() ==> #[trigger] id[i] != '\t',
        forall|i: int| 0 <= i < module.len() ==> #[trigger] module[i] != '\t',
    ensures
        module_fields(id + seq!['\t'] + module + seq!['\t'] + args) == (id, module, args),
        stale_module_ids(seq![id + seq!['\t'] + module + seq!['\t'] + args]) == if (module
            == "module-null-sink"@ && contains_seq(args, "sink_name=netshare_sink"@)) || (module
            == "module-loopback"@ && contains_seq(args, "sink=netshare_sink"@)) {
            seq![id]
        } else {
            Seq::<Seq<char>>::empty()
        },
{
    let t = Sep::Char('\t');
    let line = id + seq!['\t'] + module + seq!['\t'] + args;
    lemma_split_single(id, t);
    lemma_split_single(module, t);
    lemma_split_concat(module, '\t', args, t);
    lemma_split_concat(id, '\t', module + seq!['\t'] + args, t);
    assert(line =~= id + seq!['\t'] + (module + seq!['\t'] + args));
    lemma_split_nonempty(args, t);
    let p = split_where(line, t);
    assert(p == seq![id] + (seq![module] + split_where(args, t)));
    assert(p[0] == id);
    assert(p[1] == module);
    assert(line.skip((id.len() + module.len() + 2) as int) =~= args);
    let lines = seq![line];
    assert(lines.drop_last() =~= Seq::<Seq<char>>::empty());
    assert(lines.last() == line);
    assert(stale_module_ids(Seq::<Seq<char>>::empty()) == Seq::<Seq<char>>::empty());
    assert(Seq::<Seq<char>>::empty().push(id) =~= seq![id]);
}

pub open spec fn string_views(v: Seq<String>) -> Seq<Seq<char>> {
    v.map_values(|s: String| s@)
}

/// The ids of the modules to unload, from the short list of modules.
pub fn modules_to_unload(listing: &str) -> (r: Vec<String>)
    ensures
        string_views(r@) == stale_module_ids(lines_of(listing@)),
{
    let text = chars_of(listing);
    let lines = line_ranges(&text);
    let null_sink = chars_of("module-null-sink");
    let null_arg = chars_of("sink_name=netshare_sink");
    let loopback = chars_of("module-loopback");
    let loop_arg = chars_of("sink=netshare_sink");
    let mut r: Vec<String> = Vec::new();
    let mut k: usize = 0;
    while k < lines.len()
        invariant
            text@ == listing@,
            null_sink@ == "module-null-sink"@,
            null_arg@ == "sink_name=netshare_sink"@,
            loopback@ == "module-loopback"@,
            loop_arg@ == "sink=netshare_sink"@,
            lines@.len() == lines_of(text@).len(),
            k <= lines@.len(),
            forall|j: int|
                0 <= j < lines@.len() ==> (#[trigger] lines@[j]).0 <= lines@[j].1 <= text.len()
                    && text@.subrange(lines@[j].0 as int, lines@[j].1 as int) == lines_of(text@)[j],
            string_views(r@) == stale_module_ids(lines_of(text@).take(k as int)),
        decreases lines.len() - k,
    {
        let ghost all = lines_of(text@);
        assert(all.take(k + 1).drop_last() =~= all.take(k as int));
        assert(all.take(k + 1).last() == all[k as int]);
        let (a, b) = lines[k];
        let ghost line = text@.subrange(a as int, b as int);
        let pieces = split_ranges(&text, a, b, Sep::Char('\t'));
        let ghost p = split_where(line, Sep::Char('\t'));
        let (ia, ib) = pieces[0];
        let (ma, mb) = if pieces.len() > 1 {
            pieces[1]
        } else {
            (b, b)
        };
        let (xa, xb) = if pieces.len() > 2 {
            (pieces[2].0, b)
        } else {
            (b, b)
        };
        proof {
            if pieces.len() > 2 {
                assert(pieces@[1].0 == pieces@[0].1 + 1);
                assert(pieces@[2].0 == pieces@[1].1 + 1);
                assert(p[0] == text@.subrange(pieces@[0].0 as int, pieces@[0].1 as int));
                assert(p[1] == text@.subrange(pieces@[1].0 as int, pieces@[1].1 as int));
                assert(line.skip((p[0].len() + p[1].len() + 2) as int) =~= text@.subrange(
                    xa as int,
                    xb as int,
                ));
            } else {
                assert(text@.subrange(b as int, b as int) =~= Seq::<char>::empty());
            }
        }
        let stale = (equals_at(&text, ma, mb, &null_sink) && contains_at(&text, xa, xb, &null_arg))
            || (equals_at(&text, ma, mb, &loopback) && contains_at(&text, xa, xb, &loop_arg));
        if stale {
            let id = substring(listing, ia, ib);
            let ghost before = r@;
            r.push(id);
            assert(string_views(r@) =~= string_views(before).push(id@));
        }
        k = k + 1;
    }
    assert(lines_of(text@).take(lines.len() as int) =~= lines_of(text@));
    r
}

/// The arguments that load the virtual sink.
pub fn null_sink_load_args() -> (r: Vec<String>)
    ensures
        string_views(r@) == seq![
            "load-module"@,
            "module-null-sink"@,
            "sink_name=netshare_sink"@,
            "sink_properties=device.description=NetShare"@,
        ],
{
    let mut r: Vec<String> = Vec::new();
    r.push("load-module".to_owned());
    r.push("module-null-sink".to_owned());
    r.push("sink_name=netshare_sink".to_owned());
    r.push("sink_properties=device.description=NetShare".to_owned());
    assert(string_views(r@) =~= seq![
        "load-module"@,
        "module-null-sink"@,
        "sink_name=netshare_sink"@,
        "sink_properties=device.description=NetShare"@,
    ]);
    r
}

/// The arguments that unload the module `id`.
pub fn unload_module_args(id: &str) -> (r: Vec<String>)
    ensures
        string_views(r@) == seq!["unload-module"@, id@],
{
    let mut r: Vec<String> = Vec::new();
    r.push("unload-module".to_owned());
    r.push(id.to_owned());
    assert(string_views(r@) =~= seq!["unload-module"@, id@]);
    r
}

/// The arguments of the loopback that routes `source` into the virtual sink.
pub fn loopback_args(source: &Source) -> (r: Vec<String>)
    ensures
        string_views(r@) == seq![
            "--capture-props"@,
            "target.object="@ + source.node_name@,
            "--playback-props"@,
            "target.object=netshare_sink"@,
        ],
{
    let mut target = "target.object=".to_owned();
    target.append(source.node_name.as_str());
    let mut r: Vec<String> = Vec::new();
    r.push("--capture-props".to_owned());
    r.push(target);
    r.push("--playback-props".to_owned());
    r.push("target.object=netshare_sink".to_owned());
    assert(string_views(r@) =~= seq![
        "--capture-props"@,
        "target.object="@ + source.node_name@,
        "--playback-props"@,
        "target.object=netshare_sink"@,
    ]);
    r
}

pub open spec fn default_sink_key() -> Seq<char> {
    "Default Sink:"@
}

/// What follows the key on the first line of the server information that
/// names the default sink, if one does.
pub open spec fn default_sink_of(lines: Seq<Seq<char>>) -> Option<Seq<char>>
    decreases lines.len(),
{
    if lines.len() == 0 {
        None
    } else {
        match default_sink_of(lines.drop_last()) {
            Some(s) => Some(s),
            None => if has_prefix(lines.last(), default_sink_key()) {
                Some(lines.last().skip(default_sink_key().len() as int))
            } else {
                None
            },
        }
    }
}

/// The capture target for the whole system: the monitor of the default
/// sink where the server information names one, else any virtual source.
pub open spec fn monitor_target(info: Option<Seq<char>>) -> Seq<char> {
    let fallback = "media.class=Audio/Source/Virtual"@;
    match info {
        Some(t) => match default_sink_of(lines_of(t)) {
            Some(sink) => "node.name="@ + trim(sink) + ".monitor"@,
            None => fallback,
        },
        None => fallback,
    }
}

proof fn lemma_default_sink_first(l: Seq<char>, rest: Seq<Seq<char>>)
    requires
        has_prefix(l, default_sink_key()),
    ensures
        default_sink_of(seq![l] + rest) == Some(l.skip(default_sink_key().len() as int)),
    decreases rest.len(),
{
    if rest.len() == 0 {
        assert(seq![l] + rest =~= seq![l]);
        assert(seq![l].drop_last() =~= Seq::<Seq<char>>::empty());
        assert(default_sink_of(Seq::<Seq<char>>::empty()) == None::<Seq<char>>);
        assert(seq![l].last() == l);
        assert(default_sink_of(seq![l]) == Some(l.skip(default_sink_key().len() as int)));
    } else {
        lemma_default_sink_first(l, rest.drop_last());
        assert((seq![l] + rest).drop_last() =~= seq![l] + rest.drop_last());
    }
}

/// Server information whose first line names the default sink `sink`
/// gives that sink's monitor, without the white space around the name.
pub proof fn law_default_sink_gives_its_monitor(sink: Seq<char>, rest: Seq<char>)
    requires
        forall|i: int| 0 <= i < sink.len() ==> #[trigger] sink[i] != '\n',
        sink.len() == 0 || sink.last() != '\r',
    ensures
        monitor_target(Some("Default Sink:"@ + sink + seq!['\n'] + rest)) == "node.name="@ + trim(sink)
            + ".monitor"@,
{
    reveal_strlit("Default Sink:");
    let key = "Default Sink:"@;
    assert(key.len() == 13);
    let l = key + sink;
    assert forall|i: int| 0 <= i < l.len() implies #[trigger] l[i] != '\n' by {
        if i < 13 {
            assert(l[i] == key[i]);
        } else {
            assert(l[i] == sink[i - 13]);
        }
    }
    law_lines_split_at_line_feeds(l, rest);
    assert(l.len() > 0 && l.last() != '\r') by {
        if sink.len() > 0 {
            assert(l.last() == sink.last());
        } else {
            assert(l =~= key);
        }
    }
    assert(strip_cr(l) == l);
    assert(l.subrange(0, 13) =~= key);
    lemma_default_sink_first(l, lines_of(rest));
    assert(l.skip(13) =~= sink);
}

/// The capture target for the whole system, from the server information
/// (absent where the server could not be asked).
pub fn default_sink_monitor(info: Option<&str>) -> (r: String)
    ensures
        r@ == monitor_target(
            match info {
                Some(t) => Some(t@),
                None => None,
            },
        ),
{
    let listing = match info {
        Some(t) => t,
        None => {
            return "media.class=Audio/Source/Virtual".to_owned();
        },
    };
    let text = chars_of(listing);
    let lines = line_ranges(&text);
    let key = chars_of("Default Sink:");
    let mut found: Option<(usize, usize)> = None;
    let mut k: usize = 0;
    while k < lines.len()
        invariant
            text@ == listing@,
            key@ == default_sink_key(),
            lines@.len() == lines_of(text@).len(),
            k <= lines@.len(),
            forall|j: int|
                0 <= j < lines@.len() ==> (#[trigger] lines@[j]).0 <= lines@[j].1 <= text.len()
                    && text@.subrange(lines@[j].0 as int, lines@[j].1 as int) == lines_of(text@)[j],
            found matches Some((a, b)) ==> a <= b <= text.len(),
            default_sink_of(lines_of(text@).take(k as int)) == match found {
                Some((a, b)) => Some(text@.subrange(a as int, b as int)),
                None => None,
            },
        decreases lines.len() - k,
    {
        let ghost all = lines_of(text@);
        assert(all.take(k + 1).drop_last() =~= all.take(k as int));
        assert(all.take(k + 1).last() == all[k as int]);
        if found.is_none() {
            let (a, b) = lines[k];
            if starts_with_at(&text, a, b, &key) {
                assert(text@.subrange(a as int, b as int).skip(key.len() as int) =~= text@.subrange(
                    a + key.len(),
                    b as int,
                ));
                found = Some((a + key.len(), b));
            }
        }
        k = k + 1;
    }
    assert(lines_of(text@).take(lines.len() as int) =~= lines_of(text@));
    match found {
        Some((a, b)) => {
            let (ta, tb) = trim_range(&text, a, b);
            let mut r = "node.name=".to_owned();
            let sink = substring(listing, ta, tb);
            r.append(sink.as_str());
            r.append(".monitor");
            r
        },
        None => "media.class=Audio/Source/Virtual".to_owned(),
    }
}

} // verus!
