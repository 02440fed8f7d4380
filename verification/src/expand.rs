use vstd::prelude::*;

use crate::error::ErrorV;
use crate::error::IncludeError;
use crate::error::missing_href_error;
use crate::error::msg_missing_href;
use crate::event::Event;
use crate::event::EventV;
use crate::event::clone_event;
use crate::event::event_href;
use crate::event::event_is_directive_start;
use crate::event::event_is_dropped;
use crate::event::href_of;
use crate::event::is_directive_start;
use crate::event::is_dropped;
use crate::path::Reference;
use crate::path::ReferenceV;
use crate::path::get_file_path_to_read;
use crate::path::spec_resolve;

verus! {

/// Spec-level image of a parsed file.
#[verifier::ext_equal]
pub struct FileV {
    pub events: Seq<EventV>,
    pub error: Option<Seq<char>>,
}

/// What a streaming parse of one file produced: the events up to where the
/// parser stopped, and the read error that stopped it, if one did. A parser
/// that reached the end of the document leaves `error` empty. Keeping the
/// prefix preserves streaming behaviour: a problem among the early events is
/// reported even when the file is malformed further on.
pub struct ParsedFile {
    pub events: Vec<Event>,
    pub error: Option<String>,
}

impl DeepView for ParsedFile {
    type V = FileV;

    open spec fn deep_view(&self) -> FileV {
        FileV { events: self.events.deep_view(), error: self.error.deep_view() }
    }
}

/// The parsed files the expansion may draw on, keyed by the resolved path
/// they were read from. Lookup takes the first entry with the key.
pub struct FileSet {
    pub entries: Vec<(String, ParsedFile)>,
}

impl DeepView for FileSet {
    type V = Seq<(Seq<char>, FileV)>;

    open spec fn deep_view(&self) -> Seq<(Seq<char>, FileV)> {
        self.entries.deep_view()
    }
}

/// The file stored under a path, if any: the first entry with that key.
pub open spec fn lookup(fs: Seq<(Seq<char>, FileV)>, path: Seq<char>) -> Option<FileV>
    decreases fs.len(),
{
    if fs.len() == 0 {
        None
    } else if fs[0].0 == path {
        Some(fs[0].1)
    } else {
        lookup(fs.drop_first(), path)
    }
}

impl FileSet {
    /// An empty file set.
    pub fn new() -> (r: FileSet)
        ensures
            r.deep_view() == Seq::<(Seq<char>, FileV)>::empty(),
    {
        let entries: Vec<(String, ParsedFile)> = Vec::new();
        proof {
            assert(entries.deep_view() =~= Seq::<(Seq<char>, FileV)>::empty());
        }
        FileSet { entries }
    }

    /// Add a parsed file under the path it was read from.
    pub fn insert(&mut self, path: String, file: ParsedFile)
        ensures
            final(self).deep_view() == old(self).deep_view().push(
                (path@, file.deep_view()),
            ),
    {
        let ghost before = self.entries.deep_view();
        let ghost entry = (path@, file.deep_view());
        self.entries.push((path, file));
        proof {
            assert(self.entries.deep_view() =~= before.push(entry));
        }
    }
}

/// The file stored under a path, if any.
fn lookup_file<'a>(files: &'a FileSet, path: &String) -> (r: Option<&'a ParsedFile>)
    ensures
        match r {
            Some(f) => lookup(files.deep_view(), path@) == Some(f.deep_view()),
            None => lookup(files.deep_view(), path@) is None,
        },
{
    let ghost fv = files.deep_view();
    proof {
        assert(fv.skip(0) =~= fv);
    }
    let n = files.entries.len();
    let mut i: usize = 0;
    while i < n
        invariant
            0 <= i <= n,
            n == files.entries.len(),
            fv == files.deep_view(),
            lookup(fv, path@) == lookup(fv.skip(i as int), path@),
        decreases n - i,
    {
        let entry = &files.entries[i];
        proof {
            assert(fv.skip(i as int)[0] == fv[i as int]);
        }
        if entry.0 == *path {
            return Some(&entry.1);
        }
        proof {
            assert(fv.skip(i as int).drop_first() =~= fv.skip(i + 1));
        }
        i = i + 1;
    }
    proof {
        assert(fv.skip(n as int) =~= Seq::<(Seq<char>, FileV)>::empty());
    }
    None
}

/// What one expansion attempt came to.
#[verifier::ext_equal]
pub enum Outcome {
    /// The fully flattened event sequence.
    Expanded(Seq<EventV>),
    /// A directive named a file that the file set does not hold yet.
    Need(Seq<char>),
    /// A terminal error, the first one in document order.
    Fail(ErrorV),
    /// The nesting depth bound ran out before the expansion closed.
    Diverge,
}

/// What one expansion attempt came to. `NeedFile` asks the caller to read
/// and parse the named file, add it to the file set and try again; the other
/// three are final.
pub enum Expansion {
    Done(Vec<Event>),
    NeedFile(String),
    Failed(IncludeError),
    DepthExceeded,
}

impl DeepView for Expansion {
    type V = Outcome;

    open spec fn deep_view(&self) -> Outcome {
        match self {
            Expansion::Done(v) => Outcome::Expanded(v.deep_view()),
            Expansion::NeedFile(p) => Outcome::Need(p@),
            Expansion::Failed(e) => Outcome::Fail(e.deep_view()),
            Expansion::DepthExceeded => Outcome::Diverge,
        }
    }
}

/// An outcome with events put before its payload, when it has one.
pub open spec fn prepend(prefix: Seq<EventV>, o: Outcome) -> Outcome {
    match o {
        Outcome::Expanded(s) => Outcome::Expanded(prefix + s),
        _ => o,
    }
}

/// The expansion of a file's events from position `i` on, with `fuel`
/// bounding the nesting depth of inclusion. In document order:
///
/// - a directive start is replaced by the whole expansion of its target,
///   resolved against the one caller-supplied reference context, which is
///   also what every nested expansion resolves against;
/// - a directive end and the document boundary markers contribute nothing;
/// - every other event passes through unchanged;
/// - a file whose parse stopped in an error fails once its parsed prefix has
///   been consumed, so an earlier problem in document order wins.
pub open spec fn spec_expand_from(
    evs: Seq<EventV>,
    perr: Option<Seq<char>>,
    i: int,
    reference: Option<ReferenceV>,
    fs: Seq<(Seq<char>, FileV)>,
    fuel: nat,
) -> Outcome
    decreases fuel, evs.len() - i,
    when 0 <= i <= evs.len()
{
    if i == evs.len() {
        match perr {
            Some(m) => Outcome::Fail(ErrorV::XmlRead(m)),
            None => Outcome::Expanded(Seq::empty()),
        }
    } else {
        let e = evs[i];
        if is_directive_start(e) {
            match href_of(e) {
                None => Outcome::Fail(ErrorV::XmlReference(msg_missing_href())),
                Some(h) => match spec_resolve(h, reference) {
                    Err(err) => Outcome::Fail(err),
                    Ok(p) => match lookup(fs, p) {
                        None => Outcome::Need(p),
                        Some(f) => if fuel == 0 {
                            Outcome::Diverge
                        } else {
                            match spec_expand_from(
                                f.events,
                                f.error,
                                0,
                                reference,
                                fs,
                                (fuel - 1) as nat,
                            ) {
                                Outcome::Expanded(c) => prepend(
                                    c,
                                    spec_expand_from(evs, perr, i + 1, reference, fs, fuel),
                                ),
                                o => o,
                            }
                        },
                    },
                },
            }
        } else if is_dropped(e) {
            spec_expand_from(evs, perr, i + 1, reference, fs, fuel)
        } else {
            prepend(seq![e], spec_expand_from(evs, perr, i + 1, reference, fs, fuel))
        }
    }
}

/// The expansion of a whole parsed file.
pub open spec fn spec_expand_file(
    file: FileV,
    reference: Option<ReferenceV>,
    fs: Seq<(Seq<char>, FileV)>,
    fuel: nat,
) -> Outcome {
    spec_expand_from(file.events, file.error, 0, reference, fs, fuel)
}

/// Putting events before an outcome composes.
pub proof fn lemma_prepend_compose(a: Seq<EventV>, b: Seq<EventV>, o: Outcome)
    ensures
        prepend(a, prepend(b, o)) == prepend(a + b, o),
{
    match o {
        Outcome::Expanded(s) => {
            assert(a + (b + s) =~= (a + b) + s);
        },
        _ => {},
    }
}

/// Expand a parsed file against a reference context and a set of already
/// parsed files, replacing every inclusion directive, recursively, by the
/// expansion of its target. `fuel` bounds the inclusion nesting depth, so
/// that a cycle of files including one another comes back as
/// `DepthExceeded` instead of running forever.
///
/// The result is exactly what `spec_expand_file` states, so in particular:
/// the target of every directive is resolved against the `reference` given
/// here, including directives met inside included files.
pub fn expand_file(
    file: &ParsedFile,
    reference: Option<&Reference>,
    files: &FileSet,
    fuel: u64,
) -> (r: Expansion)
    ensures
        r.deep_view() == spec_expand_file(
            file.deep_view(),
            reference.deep_view(),
            files.deep_view(),
            fuel as nat,
        ),
    decreases fuel,
{
    let ghost evs = file.events.deep_view();
    let ghost perr = file.error.deep_view();
    let ghost rv = reference.deep_view();
    let ghost fsv = files.deep_view();
    let n = file.events.len();
    let mut out: Vec<Event> = Vec::new();
    let mut i: usize = 0;
    proof {
        assert(out.deep_view() =~= Seq::<EventV>::empty());
        assert(prepend(out.deep_view(), spec_expand_from(evs, perr, 0, rv, fsv, fuel as nat))
            == spec_expand_from(evs, perr, 0, rv, fsv, fuel as nat)) by {
            match spec_expand_from(evs, perr, 0, rv, fsv, fuel as nat) {
                Outcome::Expanded(s) => {
                    assert(Seq::<EventV>::empty() + s =~= s);
                },
                _ => {},
            }
        }
    }
    while i < n
        invariant
            0 <= i <= n,
            n == file.events.len(),
            evs == file.events.deep_view(),
            perr == file.error.deep_view(),
            rv == reference.deep_view(),
            fsv == files.deep_view(),
            spec_expand_from(evs, perr, 0, rv, fsv, fuel as nat) == prepend(
                out.deep_view(),
                spec_expand_from(evs, perr, i as int, rv, fsv, fuel as nat),
            ),
        decreases n - i,
    {
        let ghost here = spec_expand_from(evs, perr, i as int, rv, fsv, fuel as nat);
        let ghost next = spec_expand_from(evs, perr, i + 1, rv, fsv, fuel as nat);
        let e = &file.events[i];
        proof {
            assert(e.deep_view() == evs[i as int]);
        }
        if event_is_directive_start(e) {
            match event_href(e) {
                None => {
                    let err = missing_href_error();
                    let r = Expansion::Failed(err);
                    proof {
                        assert(here == Outcome::Fail(ErrorV::XmlReference(msg_missing_href())));
                    }
                    return r;
                },
                Some(h) => {
                    match get_file_path_to_read(h.as_str(), reference) {
                        Err(err) => {
                            let r = Expansion::Failed(err);
                            return r;
                        },
                        Ok(p) => {
                            match lookup_file(files, &p) {
                                None => {
                                    return Expansion::NeedFile(p);
                                },
                                Some(child) => {
                                    if fuel == 0 {
                                        return Expansion::DepthExceeded;
                                    }
                                    match expand_file(child, reference, files, fuel - 1) {
                                        Expansion::Done(mut cv) => {
                                            let ghost before = out.deep_view();
                                            let ghost cvv = cv.deep_view();
                                            proof {
                                                assert(here == prepend(cvv, next));
                                                lemma_prepend_compose(before, cvv, next);
                                            }
                                            out.append(&mut cv);
                                            proof {
                                                assert(out.deep_view() =~= before + cvv);
                                            }
                                        },
                                        other => {
                                            proof {
                                                assert(here == other.deep_view());
                                            }
                                            return other;
                                        },
                                    }
                                },
                            }
                        },
                    }
                },
            }
        } else if event_is_dropped(e) {
            proof {
                assert(here == next);
            }
        } else {
            let c = clone_event(e);
            let ghost before = out.deep_view();
            proof {
                assert(here == prepend(seq![evs[i as int]], next));
                lemma_prepend_compose(before, seq![evs[i as int]], next);
            }
            out.push(c);
            proof {
                assert(out.deep_view() =~= before + seq![evs[i as int]]);
            }
        }
        i = i + 1;
    }
    match &file.error {
        Some(m) => {
            proof {
                assert(spec_expand_from(evs, perr, n as int, rv, fsv, fuel as nat)
                    == Outcome::Fail(ErrorV::XmlRead(m@)));
            }
            Expansion::Failed(IncludeError::XmlReadError(m.clone()))
        },
        None => {
            proof {
                assert(spec_expand_from(evs, perr, n as int, rv, fsv, fuel as nat)
                    == Outcome::Expanded(Seq::<EventV>::empty()));
                assert(out.deep_view() + Seq::<EventV>::empty() =~= out.deep_view());
            }
            Expansion::Done(out)
        },
    }
}

} // verus!
