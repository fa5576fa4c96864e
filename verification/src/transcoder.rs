//! The transcoder's configuration: per-protocol ffmpeg options and the argument
//! list that ffmpeg is started with.

use vstd::prelude::*;

verus! {

/// A list of strings by its contents.
pub open spec fn strings_view(v: Seq<String>) -> Seq<Seq<char>> {
    v.map_values(|s: String| s@)
}

pub open spec fn opt_strings_view(o: Option<Vec<String>>) -> Option<Seq<Seq<char>>> {
    match o {
        Some(v) => Some(strings_view(v@)),
        None => None,
    }
}

/// A copy of a list of strings.
pub fn copy_strings(v: &Vec<String>) -> (r: Vec<String>)
    ensures
        strings_view(r@) == strings_view(v@),
{
    let mut r: Vec<String> = Vec::new();
    let mut i: usize = 0;
    while i < v.len()
        invariant
            0 <= i <= v@.len(),
            r@.len() == i,
            forall|j: int| 0 <= j < i ==> (#[trigger] r@[j])@ == v@[j]@,
        decreases v@.len() - i,
    {
        r.push(v[i].clone());
        i = i + 1;
    }
    assert(strings_view(r@) =~= strings_view(v@));
    r
}

fn copy_opt_strings(o: &Option<Vec<String>>) -> (r: Option<Vec<String>>)
    ensures
        opt_strings_view(r) == opt_strings_view(*o),
{
    match o {
        Some(v) => Some(copy_strings(v)),
        None => None,
    }
}

/// Options of ffmpeg: given before everything, before the input, and for the output.
pub struct OptionItemView {
    pub global: Option<Seq<Seq<char>>>,
    pub input: Option<Seq<Seq<char>>>,
    pub output: Option<Seq<Seq<char>>>,
}

/// The ffmpeg options for one protocol.
#[derive(Clone, Debug)]
pub struct OptionItem {
    pub global: Option<Vec<String>>,
    pub input: Option<Vec<String>>,
    pub output: Option<Vec<String>>,
}

impl View for OptionItem {
    type V = OptionItemView;

    open spec fn view(&self) -> OptionItemView {
        OptionItemView {
            global: opt_strings_view(self.global),
            input: opt_strings_view(self.input),
            output: opt_strings_view(self.output),
        }
    }
}

impl OptionItem {
    /// A copy with the same options.
    pub fn duplicate(&self) -> (r: OptionItem)
        ensures
            r@ == self@,
    {
        OptionItem {
            global: copy_opt_strings(&self.global),
            input: copy_opt_strings(&self.input),
            output: copy_opt_strings(&self.output),
        }
    }
}

/// The option item stored last under `key`, if any.
pub open spec fn lookup(entries: Seq<(Seq<char>, OptionItemView)>, key: Seq<char>) -> Option<
    OptionItemView,
>
    decreases entries.len(),
{
    if entries.len() == 0 {
        None
    } else if entries.last().0 == key {
        Some(entries.last().1)
    } else {
        lookup(entries.drop_last(), key)
    }
}

/// ffmpeg options by protocol name (a URL scheme, or "default").
pub struct TranscoderOptions {
    entries: Vec<(String, OptionItem)>,
}

impl View for TranscoderOptions {
    type V = Seq<(Seq<char>, OptionItemView)>;

    closed spec fn view(&self) -> Seq<(Seq<char>, OptionItemView)> {
        self.entries@.map_values(|e: (String, OptionItem)| (e.0@, e.1@))
    }
}

impl TranscoderOptions {
    /// No options for any protocol.
    pub fn new() -> (r: Self)
        ensures
            forall|k: Seq<char>| lookup(r@, k) is None,
            r@.len() == 0,
    {
        let r = TranscoderOptions { entries: Vec::new() };
        assert(r@ =~= seq![]);
        r
    }

    /// Sets the options for `protocol`, in place of any it had.
    pub fn insert(&mut self, protocol: String, item: OptionItem)
        ensures
            final(self)@ == old(self)@.push((protocol@, item@)),
            lookup(final(self)@, protocol@) == Some(item@),
            forall|k: Seq<char>| k != protocol@ ==> lookup(final(self)@, k) == lookup(old(self)@, k),
    {
        let ghost key = protocol@;
        let ghost iv = item@;
        self.entries.push((protocol, item));
        assert(self@ =~= old(self)@.push((key, iv)));
        assert(self@.drop_last() =~= old(self)@);
    }

    /// The options for `protocol`.
    pub fn get(&self, protocol: &str) -> (r: Option<&OptionItem>)
        ensures
            match r {
                Some(item) => lookup(self@, protocol@) == Some(item@),
                None => lookup(self@, protocol@) is None,
            },
    {
        let key = protocol.to_owned();
        let mut i: usize = self.entries.len();
        assert(self@.take(i as int) =~= self@);
        while i > 0
            invariant
                0 <= i <= self.entries@.len(),
                key@ == protocol@,
                lookup(self@, protocol@) == lookup(self@.take(i as int), protocol@),
            decreases i,
        {
            proof {
                assert(self@.take(i as int).drop_last() =~= self@.take(i - 1));
            }
            if self.entries[i - 1].0 == key {
                return Some(&self.entries[i - 1].1);
            }
            i = i - 1;
        }
        None
    }

    /// A copy with the same options.
    pub fn duplicate(&self) -> (r: TranscoderOptions)
        ensures
            r@ == self@,
    {
        let mut entries: Vec<(String, OptionItem)> = Vec::new();
        let mut i: usize = 0;
        while i < self.entries.len()
            invariant
                0 <= i <= self.entries@.len(),
                entries@.len() == i,
                forall|j: int|
                    0 <= j < i ==> (#[trigger] entries@[j]).0@ == self.entries@[j].0@
                        && entries@[j].1@ == self.entries@[j].1@,
            decreases self.entries@.len() - i,
        {
            let e = &self.entries[i];
            entries.push((e.0.clone(), e.1.duplicate()));
            i = i + 1;
        }
        let r = TranscoderOptions { entries };
        assert(r@ =~= self@);
        r
    }
}

/// What the scheme of `source`, read as a URL by `url::Url::parse`, is; `None`
/// where the parse fails.
pub uninterp spec fn parsed_url_scheme(source: Seq<char>) -> Option<Seq<char>>;

pub open spec fn opt_string_view(o: Option<String>) -> Option<Seq<char>> {
    match o {
        Some(s) => Some(s@),
        None => None,
    }
}

/// The scheme of `source` read as a URL, through `url::Url::parse` and
/// `url::Url::scheme`; `None` where the parse fails.
#[verifier::external_body]
fn url_scheme(source: &str) -> (r: Option<String>)
    ensures
        opt_string_view(r) == parsed_url_scheme(source@),
{
    match url::Url::parse(source) {
        Ok(url) => Some(url.scheme().to_string()),
        Err(_) => None,
    }
}

/// The options that apply to `protocol`: its own, else those for "default".
pub open spec fn options_for(options: Option<Seq<(Seq<char>, OptionItemView)>>, protocol: Seq<char>) -> Option<
    OptionItemView,
> {
    match options {
        None => None,
        Some(o) => match lookup(o, protocol) {
            Some(item) => Some(item),
            None => lookup(o, "default"@),
        },
    }
}

pub open spec fn optional_args(o: Option<Seq<Seq<char>>>) -> Seq<Seq<char>> {
    match o {
        Some(v) => v,
        None => seq![],
    }
}

/// The arguments ffmpeg is started with: with options, the global and input
/// options, `-i` and the source, the output options; without, a real-time read of
/// the source copied into FLV. Either way the output goes to standard output ("-").
pub open spec fn ffmpeg_arguments(source: Seq<char>, item: Option<OptionItemView>) -> Seq<Seq<char>> {
    match item {
        Some(o) => optional_args(o.global) + optional_args(o.input) + seq!["-i"@, source]
            + optional_args(o.output) + seq!["-"@],
        None => seq![
            "-re"@,
            "-i"@,
            source,
            "-c:v"@,
            "copy"@,
            "-c:a"@,
            "copy"@,
            "-f"@,
            "flv"@,
            "-"@,
        ],
    }
}

pub struct TranscoderView {
    pub source: Seq<char>,
    pub options: Option<Seq<(Seq<char>, OptionItemView)>>,
}

/// What runs ffmpeg on a source: the source and the options by protocol.
pub struct Transcoder {
    source: String,
    options: Option<TranscoderOptions>,
}

impl View for Transcoder {
    type V = TranscoderView;

    closed spec fn view(&self) -> TranscoderView {
        TranscoderView {
            source: self.source@,
            options: match self.options {
                Some(o) => Some(o@),
                None => None,
            },
        }
    }
}

fn append_strings(out: &mut Vec<String>, v: &Vec<String>)
    ensures
        strings_view(final(out)@) == strings_view(old(out)@) + strings_view(v@),
{
    let mut i: usize = 0;
    while i < v.len()
        invariant
            0 <= i <= v@.len(),
            strings_view(out@) == strings_view(old(out)@) + strings_view(v@.take(i as int)),
        decreases v@.len() - i,
    {
        let ghost before = out@;
        out.push(v[i].clone());
        assert(strings_view(out@) =~= strings_view(before).push(v@[i as int]@));
        assert(strings_view(v@.take(i + 1)) =~= strings_view(v@.take(i as int)).push(v@[i as int]@));
        i = i + 1;
    }
    assert(v@.take(v@.len() as int) =~= v@);
}

fn push_string(out: &mut Vec<String>, s: String)
    ensures
        strings_view(final(out)@) == strings_view(old(out)@).push(s@),
{
    let ghost sv = s@;
    out.push(s);
    assert(strings_view(final(out)@) =~= strings_view(old(out)@).push(sv));
}

impl Transcoder {
    pub fn with_option(source: &str, options: Option<TranscoderOptions>) -> (r: Self)
        ensures
            r@.source == source@,
            r@.options == match options {
                Some(o) => Some(o@),
                None => None::<Seq<(Seq<char>, OptionItemView)>>,
            },
    {
        Transcoder { source: source.to_owned(), options }
    }

    /// The source ffmpeg reads.
    pub fn source(&self) -> (r: &String)
        ensures
            r@ == self@.source,
    {
        &self.source
    }

    /// The options that apply to `protocol`: its own, else those for "default".
    pub fn find_options(&self, protocol: &str) -> (r: Option<&OptionItem>)
        ensures
            match r {
                Some(item) => options_for(self@.options, protocol@) == Some(item@),
                None => options_for(self@.options, protocol@) is None,
            },
    {
        match &self.options {
            Some(options) => {
                let result = options.get(protocol);
                if result.is_some() {
                    result
                } else {
                    options.get("default")
                }
            },
            None => None,
        }
    }

    /// The arguments ffmpeg is started with, chosen by the scheme of the source
    /// where it reads as a URL.
    pub fn ffmpeg_args(&self) -> (r: Vec<String>)
        ensures
            strings_view(r@) == ffmpeg_arguments(
                self@.source,
                match parsed_url_scheme(self@.source) {
                    Some(scheme) => options_for(self@.options, scheme),
                    None => None,
                },
            ),
    {
        let options: Option<&OptionItem> = match url_scheme(self.source.as_str()) {
            Some(scheme) => self.find_options(scheme.as_str()),
            None => None,
        };
        let mut args: Vec<String> = Vec::new();
        match options {
            Some(options) => {
                match &options.global {
                    Some(v) => append_strings(&mut args, v),
                    None => {},
                }
                match &options.input {
                    Some(v) => append_strings(&mut args, v),
                    None => {},
                }
                push_string(&mut args, "-i".to_owned());
                push_string(&mut args, self.source.clone());
                match &options.output {
                    Some(v) => append_strings(&mut args, v),
                    None => {},
                }
                push_string(&mut args, "-".to_owned());
            },
            None => {
                push_string(&mut args, "-re".to_owned());
                push_string(&mut args, "-i".to_owned());
                push_string(&mut args, self.source.clone());
                push_string(&mut args, "-c:v".to_owned());
                push_string(&mut args, "copy".to_owned());
                push_string(&mut args, "-c:a".to_owned());
                push_string(&mut args, "copy".to_owned());
                push_string(&mut args, "-f".to_owned());
                push_string(&mut args, "flv".to_owned());
                push_string(&mut args, "-".to_owned());
            },
        }
        proof {
            let item = match parsed_url_scheme(self@.source) {
                Some(scheme) => options_for(self@.options, scheme),
                None => None,
            };
            assert(strings_view(args@) =~= ffmpeg_arguments(self@.source, item));
        }
        args
    }
}

/// Options read back as written: after options are set for a protocol, that
/// protocol has them, and every other protocol has what it had.
pub proof fn law_options_read_after_write(
    entries: Seq<(Seq<char>, OptionItemView)>,
    protocol: Seq<char>,
    item: OptionItemView,
    other: Seq<char>,
)
    ensures
        lookup(entries.push((protocol, item)), protocol) == Some(item),
        other != protocol ==> lookup(entries.push((protocol, item)), other) == lookup(entries, other),
{
    assert(entries.push((protocol, item)).drop_last() =~= entries);
}

/// A protocol with options of its own uses them; one without falls back on the
/// "default" options; with no options at all there are none.
pub proof fn law_options_fallback(options: Option<Seq<(Seq<char>, OptionItemView)>>, protocol: Seq<char>)
    ensures
        options is None ==> options_for(options, protocol) is None,
        options matches Some(o) ==> (lookup(o, protocol) is Some ==> options_for(options, protocol)
            == lookup(o, protocol)),
        options matches Some(o) ==> (lookup(o, protocol) is None ==> options_for(options, protocol)
            == lookup(o, "default"@)),
{
}

/// ffmpeg always reads the source given after "-i" and writes to standard
/// output: the last argument is "-", and "-i" is followed by the source.
pub proof fn law_ffmpeg_reads_source_writes_stdout(source: Seq<char>, item: Option<OptionItemView>)
    ensures
        ffmpeg_arguments(source, item).last() == "-"@,
        exists|i: int|
            0 <= i && i + 1 < ffmpeg_arguments(source, item).len()
                && #[trigger] ffmpeg_arguments(source, item)[i] == "-i"@
                && ffmpeg_arguments(source, item)[i + 1] == source,
{
    let a = ffmpeg_arguments(source, item);
    match item {
        Some(o) => {
            let i: int = (optional_args(o.global).len() + optional_args(o.input).len()) as int;
            assert(a[i] == "-i"@);
            assert(a[i + 1] == source);
        },
        None => {
            assert(a[1] == "-i"@);
            assert(a[2] == source);
        },
    }
}

/// The layout of ffmpeg's arguments with an option item: first its global
/// options, then its input options, then "-i" and the source, then its output
/// options, and last "-"; an absent list contributes nothing. The output options
/// always stand between the source and the final "-".
pub proof fn law_ffmpeg_option_layout(source: Seq<char>, o: OptionItemView)
    ensures
        ({
            let a = ffmpeg_arguments(source, Some(o));
            let g: Seq<Seq<char>> = match o.global {
                Some(v) => v,
                None => seq![],
            };
            let i: Seq<Seq<char>> = match o.input {
                Some(v) => v,
                None => seq![],
            };
            let out: Seq<Seq<char>> = match o.output {
                Some(v) => v,
                None => seq![],
            };
            let gi: int = (g.len() + i.len()) as int;
            &&& a.len() == gi + out.len() + 3
            &&& a.take(g.len() as int) == g
            &&& a.subrange(g.len() as int, gi) == i
            &&& a[gi] == "-i"@
            &&& a[gi + 1] == source
            &&& a.subrange(gi + 2, a.len() - 1) == out
            &&& a[a.len() - 1] == "-"@
        }),
{
    let a = ffmpeg_arguments(source, Some(o));
    let g = optional_args(o.global);
    let i = optional_args(o.input);
    let out = optional_args(o.output);
    let gi: int = (g.len() + i.len()) as int;
    assert(a.take(g.len() as int) =~= g);
    assert(a.subrange(g.len() as int, gi) =~= i);
    assert(a.subrange(gi + 2, a.len() - 1) =~= out);
}

} // verus!
