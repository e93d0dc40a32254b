use vstd::prelude::*;

verus! {

/// `needle` occurs in `hay` starting at position `i`.
pub open spec fn occurs_at(needle: Seq<char>, hay: Seq<char>, i: int) -> bool {
    0 <= i && i + needle.len() <= hay.len() && hay.subrange(i, i + needle.len()) == needle
}

/// `needle` occurs somewhere in `hay` (the empty text occurs in every text).
pub open spec fn occurs_in(needle: Seq<char>, hay: Seq<char>) -> bool {
    exists|i: int| #[trigger] occurs_at(needle, hay, i)
}

/// The name of a process contains one of the suspect names.
pub open spec fn suspicious(app: Seq<char>, suspects: Seq<Seq<char>>) -> bool {
    exists|k: int| 0 <= k < suspects.len() && occurs_in(#[trigger] suspects[k], app)
}

/// The names of `names` that are suspicious and not in `known`, in their order.
pub open spec fn fresh_suspects(
    names: Seq<Seq<char>>,
    known: Seq<Seq<char>>,
    suspects: Seq<Seq<char>>,
) -> Seq<Seq<char>>
    decreases names.len(),
{
    if names.len() == 0 {
        Seq::empty()
    } else {
        let rest = fresh_suspects(names.drop_last(), known, suspects);
        let n = names.last();
        if !known.contains(n) && suspicious(n, suspects) {
            rest.push(n)
        } else {
            rest
        }
    }
}

/// The names of `names` that are suspicious, in their order.
pub open spec fn suspects_among(names: Seq<Seq<char>>, suspects: Seq<Seq<char>>) -> Seq<Seq<char>> {
    fresh_suspects(names, Seq::empty(), suspects)
}

/// Position of the first `\n` in `text`, or its length where there is none.
pub open spec fn line_break(text: Seq<char>) -> nat
    decreases text.len(),
{
    if text.len() == 0 {
        0
    } else if text[0] == '\n' {
        0
    } else {
        1 + line_break(text.drop_first())
    }
}

/// Lines of a text, as `str::lines` splits it: at each `\n`, a `\r` just before it dropped
/// with it; the final line ending is optional, so a trailing `\n` starts no empty line.
pub open spec fn lines_of(text: Seq<char>) -> Seq<Seq<char>>
    decreases text.len(),
{
    if text.len() == 0 {
        Seq::empty()
    } else {
        let k = line_break(text);
        if k < text.len() {
            let line = text.take(k as int);
            let line = if line.len() > 0 && line.last() == '\r' {
                line.drop_last()
            } else {
                line
            };
            seq![line] + lines_of(text.skip((k + 1) as int))
        } else {
            seq![text]
        }
    }
}

/// Whitespace-separated fields of a line, as `str::split_whitespace` splits it.
pub uninterp spec fn fields_of(line: Seq<char>) -> Seq<Seq<char>>;

/// Relies on str::lines: the lines of `text`, without their line endings (`\n` or `\r\n`).
#[verifier::external_body]
pub(crate) fn text_lines(text: &str) -> (r: Vec<String>)
    ensures
        r.deep_view() == lines_of(text@),
{
    text.lines().map(|line| line.to_string()).collect()
}

/// Relies on str::split_whitespace: the fields of `line` between runs of whitespace.
#[verifier::external_body]
fn line_fields(line: &str) -> (r: Vec<String>)
    ensures
        r.deep_view() == fields_of(line@),
{
    line.split_whitespace().map(|field| field.to_string()).collect()
}

/// The process names in `ps aux` output: the eleventh field of each line that has one.
pub open spec fn ps_names(lines: Seq<Seq<char>>) -> Seq<Seq<char>>
    decreases lines.len(),
{
    if lines.len() == 0 {
        Seq::empty()
    } else {
        let rest = ps_names(lines.drop_last());
        let fields = fields_of(lines.last());
        if fields.len() > 10 {
            rest.push(fields[10])
        } else {
            rest
        }
    }
}

/// `k` is where the first comma-separated field of `line` ends: at the first `,`, or at the
/// end of a line without one.
pub open spec fn first_field_end(line: Seq<char>, k: int) -> bool {
    &&& 0 <= k <= line.len()
    &&& (k == line.len() || line[k] == ',')
    &&& forall|i: int| 0 <= i < k ==> line[i] != ','
}

/// `name` is the first comma-separated field of `line` with the double quotes around it
/// trimmed: leading and trailing `"` removed, as many as there are.
pub open spec fn tasklist_name(line: Seq<char>, name: Seq<char>) -> bool {
    exists|k: int, a: int, b: int|
        {
            &&& #[trigger] first_field_end(line, k)
            &&& 0 <= a <= b <= k
            &&& (forall|i: int| 0 <= i < a ==> line[i] == '"')
            &&& (forall|i: int| b <= i < k ==> line[i] == '"')
            &&& (a < b ==> line[a] != '"' && line[b - 1] != '"')
            &&& #[trigger] line.subrange(a, b) == name
        }
}

/// Whether `needle` occurs in `hay` at position `i`.
fn matches_at(hay: &str, needle: &str, i: usize, hay_len: usize, needle_len: usize) -> (r: bool)
    requires
        hay_len == hay@.len(),
        needle_len == needle@.len(),
        i + needle_len <= hay_len,
    ensures
        r == occurs_at(needle@, hay@, i as int),
{
    let mut j: usize = 0;
    while j < needle_len
        invariant
            hay_len == hay@.len(),
            needle_len == needle@.len(),
            i + needle_len <= hay_len,
            j <= needle_len,
            forall|k: int| 0 <= k < j ==> hay@[i + k] == needle@[k],
        decreases needle_len - j,
    {
        if hay.get_char(i + j) != needle.get_char(j) {
            assert(hay@.subrange(i as int, i + needle_len)[j as int] != needle@[j as int]);
            return false;
        }
        j = j + 1;
    }
    assert(hay@.subrange(i as int, i + needle_len) =~= needle@);
    true
}

/// Whether `needle` occurs in `hay`.
pub fn contains_text(hay: &str, needle: &str) -> (r: bool)
    ensures
        r == occurs_in(needle@, hay@),
{
    let hay_len = hay.unicode_len();
    let needle_len = needle.unicode_len();
    if needle_len > hay_len {
        assert(forall|i: int| !#[trigger] occurs_at(needle@, hay@, i));
        return false;
    }
    let last = hay_len - needle_len;
    let mut i: usize = 0;
    loop
        invariant
            hay_len == hay@.len(),
            needle_len == needle@.len(),
            last == hay_len - needle_len,
            i <= last,
            forall|p: int| 0 <= p < i ==> !#[trigger] occurs_at(needle@, hay@, p),
        decreases last - i,
    {
        if matches_at(hay, needle, i, hay_len, needle_len) {
            return true;
        }
        if i == last {
            assert(forall|p: int| !#[trigger] occurs_at(needle@, hay@, p));
            return false;
        }
        i = i + 1;
    }
}

/// Whether the process name `app` contains one of `suspects`.
pub fn is_suspicious(app: &String, suspects: &Vec<String>) -> (r: bool)
    ensures
        r == suspicious(app@, suspects.deep_view()),
{
    let mut k: usize = 0;
    while k < suspects.len()
        invariant
            k <= suspects@.len(),
            forall|j: int| 0 <= j < k ==> !occurs_in(#[trigger] suspects.deep_view()[j], app@),
        decreases suspects@.len() - k,
    {
        if contains_text(app.as_str(), suspects[k].as_str()) {
            assert(suspects.deep_view()[k as int] == suspects@[k as int]@);
            return true;
        }
        k = k + 1;
    }
    false
}

/// Whether `names` holds `name`.
fn holds(names: &Vec<String>, name: &String) -> (r: bool)
    ensures
        r == names.deep_view().contains(name@),
{
    let mut i: usize = 0;
    while i < names.len()
        invariant
            i <= names@.len(),
            forall|j: int| 0 <= j < i ==> names.deep_view()[j] != name@,
        decreases names@.len() - i,
    {
        if String::eq(&names[i], name) {
            assert(names.deep_view()[i as int] == name@);
            return true;
        }
        i = i + 1;
    }
    false
}

/// The names of `names` that are suspicious and not in `known`, in their order.
pub fn new_suspects(names: &Vec<String>, known: &Vec<String>, suspects: &Vec<String>) -> (r: Vec<
    String,
>)
    ensures
        r.deep_view() == fresh_suspects(names.deep_view(), known.deep_view(), suspects.deep_view()),
{
    let mut out: Vec<String> = Vec::new();
    let mut i: usize = 0;
    while i < names.len()
        invariant
            i <= names@.len(),
            out.deep_view() == fresh_suspects(
                names.deep_view().take(i as int),
                known.deep_view(),
                suspects.deep_view(),
            ),
        decreases names@.len() - i,
    {
        assert(names.deep_view().take(i + 1).drop_last() =~= names.deep_view().take(i as int));
        assert(names.deep_view().take(i + 1).last() == names@[i as int]@);
        if !holds(known, &names[i]) && is_suspicious(&names[i], suspects) {
            let ghost before = out.deep_view();
            out.push(names[i].clone());
            assert(out.deep_view() =~= before.push(names@[i as int]@));
        }
        i = i + 1;
    }
    assert(names.deep_view().take(i as int) =~= names.deep_view());
    out
}

/// The process names in `ps aux` output: the eleventh whitespace-separated field of each line
/// that has one, in order.
pub fn ps_process_names(output: &str) -> (r: Vec<String>)
    ensures
        r.deep_view() == ps_names(lines_of(output@)),
{
    let lines = text_lines(output);
    let mut out: Vec<String> = Vec::new();
    let mut i: usize = 0;
    while i < lines.len()
        invariant
            i <= lines@.len(),
            lines.deep_view() == lines_of(output@),
            out.deep_view() == ps_names(lines.deep_view().take(i as int)),
        decreases lines@.len() - i,
    {
        assert(lines.deep_view().take(i + 1).drop_last() =~= lines.deep_view().take(i as int));
        assert(lines.deep_view().take(i + 1).last() == lines@[i as int]@);
        let fields = line_fields(lines[i].as_str());
        if fields.len() > 10 {
            let ghost before = out.deep_view();
            out.push(fields[10].clone());
            assert(fields.deep_view()[10] == fields@[10]@);
            assert(out.deep_view() =~= before.push(fields.deep_view()[10]));
        }
        i = i + 1;
    }
    assert(lines.deep_view().take(i as int) =~= lines.deep_view());
    out
}

/// The first comma-separated field of `line`, with the double quotes around it trimmed.
pub fn tasklist_field(line: &str) -> (r: String)
    ensures
        tasklist_name(line@, r@),
{
    let len = line.unicode_len();
    let mut k: usize = 0;
    while k < len && line.get_char(k) != ','
        invariant
            len == line@.len(),
            k <= len,
            forall|i: int| 0 <= i < k ==> line@[i] != ',',
        decreases len - k,
    {
        k = k + 1;
    }
    let mut a: usize = 0;
    while a < k && line.get_char(a) == '"'
        invariant
            len == line@.len(),
            k <= len,
            a <= k,
            forall|i: int| 0 <= i < a ==> line@[i] == '"',
        decreases k - a,
    {
        a = a + 1;
    }
    let mut b: usize = k;
    while b > a && line.get_char(b - 1) == '"'
        invariant
            len == line@.len(),
            k <= len,
            a <= b <= k,
            forall|i: int| b <= i < k ==> line@[i] == '"',
        decreases b - a,
    {
        b = b - 1;
    }
    let r = String::from_str(line.substring_char(a, b));
    assert(line@.subrange(a as int, b as int) == r@);
    assert(first_field_end(line@, k as int));
    r
}

/// The process names in `tasklist /FO CSV /NH` output: the first field of each line, its
/// quotes trimmed, in order.
pub fn tasklist_process_names(output: &str) -> (r: Vec<String>)
    ensures
        r@.len() == lines_of(output@).len(),
        forall|i: int| 0 <= i < r@.len() ==> tasklist_name(lines_of(output@)[i], #[trigger] r@[i]@),
{
    let lines = text_lines(output);
    let mut out: Vec<String> = Vec::new();
    let mut i: usize = 0;
    while i < lines.len()
        invariant
            i <= lines@.len(),
            lines.deep_view() == lines_of(output@),
            out@.len() == i,
            forall|j: int| 0 <= j < i ==> tasklist_name(lines_of(output@)[j], #[trigger] out@[j]@),
        decreases lines@.len() - i,
    {
        assert(lines.deep_view()[i as int] == lines@[i as int]@);
        let name = tasklist_field(lines[i].as_str());
        out.push(name);
        i = i + 1;
    }
    out
}

/// Recorder names on macOS: screen capture and recording tools.
pub open spec fn macossrcd_suspects() -> Seq<Seq<char>> {
    seq![
        "QuickTime Player"@,
        "QuickTimePlayer"@,
        "screencapture"@,
        "ScreenFlow"@,
        "Snip"@,
        "obs"@,
        "OBS"@,
        "Camtasia"@,
        "Loom"@,
        "Screen Recording"@,
        "Screenshot"@,
        "com.apple.screencapture"@,
        "com.apple.QuickTimePlayerX"@,
    ]
}

/// Watches the running processes for screen-recording applications (recorder names on macos).
pub struct MacosSRCD {
    /// Names whose occurrence in a process name marks it as a recorder.
    pub sus: Vec<String>,
    /// The processes seen at the last look.
    pub alr: Vec<String>,
}

impl MacosSRCD {
    /// A detector with the platform's list of recorder names and no process seen yet.
    pub fn new() -> (r: MacosSRCD)
        ensures
            r.sus.deep_view() == macossrcd_suspects(),
            r.alr@.len() == 0,
    {
        let mut sus: Vec<String> = Vec::new();
        sus.push(String::from_str("QuickTime Player"));
        sus.push(String::from_str("QuickTimePlayer"));
        sus.push(String::from_str("screencapture"));
        sus.push(String::from_str("ScreenFlow"));
        sus.push(String::from_str("Snip"));
        sus.push(String::from_str("obs"));
        sus.push(String::from_str("OBS"));
        sus.push(String::from_str("Camtasia"));
        sus.push(String::from_str("Loom"));
        sus.push(String::from_str("Screen Recording"));
        sus.push(String::from_str("Screenshot"));
        sus.push(String::from_str("com.apple.screencapture"));
        sus.push(String::from_str("com.apple.QuickTimePlayerX"));
        assert(sus.deep_view() =~= macossrcd_suspects());
        MacosSRCD { sus, alr: Vec::new() }
    }

    /// Takes `current` as the processes now running: whether one of them is a recorder that
    /// was not running at the last look. `current` becomes the last look.
    pub fn detect_new(&mut self, current: Vec<String>) -> (r: bool)
        ensures
            r == (fresh_suspects(current.deep_view(), old(self).alr.deep_view(), old(self).sus.deep_view()).len() > 0),
            final(self).sus == old(self).sus,
            final(self).alr == current,
    {
        let found = new_suspects(&current, &self.alr, &self.sus);
        self.alr = current;
        found.len() > 0
    }

    /// Looks twice: `baseline` are the processes at the first look, `current` at the second.
    /// Whether a recorder started in between.
    pub fn detect(&mut self, baseline: Vec<String>, current: Vec<String>) -> (r: bool)
        ensures
            r == (fresh_suspects(current.deep_view(), baseline.deep_view(), old(self).sus.deep_view()).len() > 0),
            final(self).sus == old(self).sus,
            final(self).alr == current,
    {
        self.alr = baseline;
        self.detect_new(current)
    }

    /// The running processes that are recorders, to be terminated.
    pub fn kill(&self, running: &Vec<String>) -> (r: Vec<String>)
        ensures
            r.deep_view() == suspects_among(running.deep_view(), self.sus.deep_view()),
    {
        let none: Vec<String> = Vec::new();
        assert(none.deep_view() =~= Seq::<Seq<char>>::empty());
        new_suspects(running, &none, &self.sus)
    }

    /// The process names in `ps aux` output.
    pub fn process_names(output: &str) -> (r: Vec<String>)
        ensures
            r.deep_view() == ps_names(lines_of(output@)),
    {
        ps_process_names(output)
    }
}

/// Recorder names on Windows: screen capture and recording tools.
pub open spec fn windowssrcd_suspects() -> Seq<Seq<char>> {
    seq![
        "OBS Studio"@,
        "obs64"@,
        "obs32"@,
        "Bandicam"@,
        "bdcam"@,
        "Camtasia"@,
        "CamtasiaStudio"@,
        "ScreenRec"@,
        "ShareX"@,
        "XSplit"@,
        "FlashBack"@,
        "ScreenToGif"@,
        "Loom"@,
        "Xbox Game Bar"@,
        "GameBar"@,
        "SnippingTool"@,
        "ScreenClip"@,
        "Windows.Screen"@,
    ]
}

/// Watches the running processes for screen-recording applications (recorder names on windows).
pub struct WindowsSRCD {
    /// Names whose occurrence in a process name marks it as a recorder.
    pub sus: Vec<String>,
    /// The processes seen at the last look.
    pub alr: Vec<String>,
}

impl WindowsSRCD {
    /// A detector with the platform's list of recorder names and no process seen yet.
    pub fn new() -> (r: WindowsSRCD)
        ensures
            r.sus.deep_view() == windowssrcd_suspects(),
            r.alr@.len() == 0,
    {
        let mut sus: Vec<String> = Vec::new();
        sus.push(String::from_str("OBS Studio"));
        sus.push(String::from_str("obs64"));
        sus.push(String::from_str("obs32"));
        sus.push(String::from_str("Bandicam"));
        sus.push(String::from_str("bdcam"));
        sus.push(String::from_str("Camtasia"));
        sus.push(String::from_str("CamtasiaStudio"));
        sus.push(String::from_str("ScreenRec"));
        sus.push(String::from_str("ShareX"));
        sus.push(String::from_str("XSplit"));
        sus.push(String::from_str("FlashBack"));
        sus.push(String::from_str("ScreenToGif"));
        sus.push(String::from_str("Loom"));
        sus.push(String::from_str("Xbox Game Bar"));
        sus.push(String::from_str("GameBar"));
        sus.push(String::from_str("SnippingTool"));
        sus.push(String::from_str("ScreenClip"));
        sus.push(String::from_str("Windows.Screen"));
        assert(sus.deep_view() =~= windowssrcd_suspects());
        WindowsSRCD { sus, alr: Vec::new() }
    }

    /// Takes `current` as the processes now running: whether one of them is a recorder that
    /// was not running at the last look. `current` becomes the last look.
    pub fn detect_new(&mut self, current: Vec<String>) -> (r: bool)
        ensures
            r == (fresh_suspects(current.deep_view(), old(self).alr.deep_view(), old(self).sus.deep_view()).len() > 0),
            final(self).sus == old(self).sus,
            final(self).alr == current,
    {
        let found = new_suspects(&current, &self.alr, &self.sus);
        self.alr = current;
        found.len() > 0
    }

    /// Looks twice: `baseline` are the processes at the first look, `current` at the second.
    /// Whether a recorder started in between.
    pub fn detect(&mut self, baseline: Vec<String>, current: Vec<String>) -> (r: bool)
        ensures
            r == (fresh_suspects(current.deep_view(), baseline.deep_view(), old(self).sus.deep_view()).len() > 0),
            final(self).sus == old(self).sus,
            final(self).alr == current,
    {
        self.alr = baseline;
        self.detect_new(current)
    }

    /// The running processes that are recorders, to be terminated.
    pub fn kill(&self, running: &Vec<String>) -> (r: Vec<String>)
        ensures
            r.deep_view() == suspects_among(running.deep_view(), self.sus.deep_view()),
    {
        let none: Vec<String> = Vec::new();
        assert(none.deep_view() =~= Seq::<Seq<char>>::empty());
        new_suspects(running, &none, &self.sus)
    }

    /// The process names in `tasklist /FO CSV /NH` output.
    pub fn process_names(output: &str) -> (r: Vec<String>)
        ensures
            r@.len() == lines_of(output@).len(),
            forall|i: int| 0 <= i < r@.len() ==> tasklist_name(lines_of(output@)[i], #[trigger] r@[i]@),
    {
        tasklist_process_names(output)
    }
}

} // verus!
