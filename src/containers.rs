//! Running containers: the rows listed by the container runtime, the
//! display name of a container that belongs to a compose project, and its
//! published ports.

use vstd::prelude::*;
use crate::ports::{parse_ports, ports_text};
use crate::text::{
    chars_of, lemma_rfind_char_range, lemma_split_nonempty, rfind_char, rfind_in, slice_string, split, split_ranges,
    split_white, starts_with, starts_with_at, strip_all, strip_all_at, trim, trim_range,
    white_split_ranges,
};

verus! {

pub open spec fn opt_view(o: Option<String>) -> Option<Seq<char>> {
    match o {
        Some(s) => Some(s@),
        None => None,
    }
}

/// `s` without its trailing copies of `c`.
pub open spec fn trim_end_char(s: Seq<char>, c: char) -> Seq<char>
    decreases s.len(),
{
    if s.len() > 0 && s.last() == c {
        trim_end_char(s.drop_last(), c)
    } else {
        s
    }
}

/// The last segment of a directory path, ignoring trailing slashes.
pub open spec fn last_segment(dir: Seq<char>) -> Seq<char> {
    split(trim_end_char(dir, '/'), '/').last()
}

pub open spec fn name_sep() -> Seq<char> {
    seq![' ', '-', ' ']
}

/// `<folder> - <service>` for a container with both a project and a service
/// label, where the folder is the last segment of the working directory,
/// or the project when there is no working directory.
pub open spec fn compose_name(
    project: Option<Seq<char>>,
    service: Option<Seq<char>>,
    working_dir: Option<Seq<char>>,
) -> Option<Seq<char>> {
    match (project, service) {
        (Some(p), Some(s)) => Some(
            match working_dir {
                Some(d) => last_segment(d),
                None => p,
            } + name_sep() + s,
        ),
        _ => None,
    }
}

/// The name shown for a container: its compose name, else its own name.
pub open spec fn shown_name(
    raw: Seq<char>,
    project: Option<Seq<char>>,
    service: Option<Seq<char>>,
    working_dir: Option<Seq<char>>,
) -> Seq<char> {
    match compose_name(project, service, working_dir) {
        Some(n) => n,
        None => raw,
    }
}

pub open spec fn project_key() -> Seq<char> {
    "com.docker.compose.project:"@
}

pub open spec fn service_key() -> Seq<char> {
    "com.docker.compose.service:"@
}

pub open spec fn dir_key() -> Seq<char> {
    "com.docker.compose.project.working_dir:"@
}

pub open spec fn frame_open() -> Seq<char> {
    "map["@
}

/// The inside of the runtime's label listing `map[k:v k:v ...]`: surrounding
/// whitespace, one leading `map[` and one trailing `]` removed.
pub open spec fn unframed(listing: Seq<char>) -> Seq<char> {
    let t = trim(listing);
    let a = if starts_with(t, frame_open()) {
        t.skip(frame_open().len() as int)
    } else {
        t
    };
    if a.len() > 0 && a.last() == ']' {
        a.drop_last()
    } else {
        a
    }
}

/// The `key:value` words of a label listing.
pub open spec fn label_words(listing: Seq<char>) -> Seq<Seq<char>> {
    split_white(unframed(listing))
}

/// The compose labels found among `words`; a later word wins.
pub open spec fn labels_of(words: Seq<Seq<char>>) -> (
    Option<Seq<char>>,
    Option<Seq<char>>,
    Option<Seq<char>>,
)
    decreases words.len(),
{
    if words.len() == 0 {
        (None, None, None)
    } else {
        let (p, s, d) = labels_of(words.drop_last());
        let w = words.last();
        if starts_with(w, project_key()) {
            (Some(strip_all(w, project_key())), s, d)
        } else if starts_with(w, service_key()) {
            (p, Some(strip_all(w, service_key())), d)
        } else if starts_with(w, dir_key()) {
            (p, s, Some(strip_all(w, dir_key())))
        } else {
            (p, s, d)
        }
    }
}

/// The compose labels of a container.
pub struct ComposeLabels {
    pub project: Option<String>,
    pub service: Option<String>,
    pub working_dir: Option<String>,
}

proof fn lemma_split_last(t: Seq<char>, c: char)
    ensures
        split(t, c).last() == match rfind_char(t, c) {
            Some(p) => t.skip(p + 1),
            None => t,
        },
    decreases t.len(),
{
    if t.len() > 0 {
        lemma_split_last(t.drop_last(), c);
        lemma_split_nonempty(t.drop_last(), c);
        lemma_rfind_char_range(t.drop_last(), c);
        if t.last() != c {
            match rfind_char(t.drop_last(), c) {
                Some(p) => {
                    assert(t.skip(p + 1) =~= t.drop_last().skip(p + 1).push(t.last()));
                },
                None => {
                    assert(t =~= t.drop_last().push(t.last()));
                },
            }
        } else {
            assert(t.skip(t.len() as int) =~= Seq::<char>::empty());
        }
    }
}

/// Computes `last_segment(dir@)`.
fn last_segment_string(dir: &str) -> (r: String)
    ensures
        r@ == last_segment(dir@),
{
    let cs = chars_of(dir);
    let mut end = cs.len();
    assert(cs@.take(end as int) =~= cs@);
    while end > 0 && cs[end - 1] == '/'
        invariant
            end <= cs.len(),
            trim_end_char(cs@, '/') == trim_end_char(cs@.take(end as int), '/'),
        decreases end,
    {
        assert(cs@.take(end as int).drop_last() =~= cs@.take(end - 1));
        end = end - 1;
    }
    assert(cs@.subrange(0, end as int) =~= cs@.take(end as int));
    proof {
        lemma_split_last(cs@.take(end as int), '/');
    }
    match rfind_in(&cs, 0, end, '/') {
        Some(p) => {
            let r = slice_string(dir, p + 1, end);
            assert(r@ =~= cs@.take(end as int).skip(p + 1));
            r
        },
        None => slice_string(dir, 0, end),
    }
}

impl ComposeLabels {
    /// The compose labels in the label listing printed by the container
    /// runtime (`map[key:value key:value ...]`): the words inside the
    /// `map[` ... `]` frame are read, wherever a label stands among them.
    pub fn parse(labels: &str) -> (r: ComposeLabels)
        ensures
            (opt_view(r.project), opt_view(r.service), opt_view(r.working_dir)) == labels_of(
                label_words(labels@),
            ),
    {
        let cs = chars_of(labels);
        let pk = chars_of("com.docker.compose.project:");
        let sk = chars_of("com.docker.compose.service:");
        let dk = chars_of("com.docker.compose.project.working_dir:");
        let mk = chars_of("map[");
        assert(cs@.subrange(0, cs@.len() as int) =~= cs@);
        let (lo, hi) = trim_range(&cs, 0, cs.len());
        let ghost t = cs@.subrange(lo as int, hi as int);
        let mut a = lo;
        if starts_with_at(&cs, lo, hi, &mk) {
            assert(t.skip(mk@.len() as int) =~= cs@.subrange(lo + mk@.len(), hi as int));
            a = lo + mk.len();
        }
        let mut b = hi;
        if b > a && cs[b - 1] == ']' {
            assert(cs@.subrange(a as int, b as int).drop_last() =~= cs@.subrange(
                a as int,
                b - 1,
            ));
            b = b - 1;
        }
        assert(cs@.subrange(a as int, b as int) == unframed(labels@));
        let words = white_split_ranges(&cs, a, b);
        let ghost ws = label_words(labels@);
        let mut r = ComposeLabels { project: None, service: None, working_dir: None };
        assert(ws.take(0) =~= Seq::<Seq<char>>::empty());
        for k in 0..words.len()
            invariant
                cs@ == labels@,
                ws == label_words(labels@),
                words@.len() == ws.len(),
                forall|m: int|
                    0 <= m < words@.len() ==> {
                        &&& 0 <= (#[trigger] words@[m]).0 <= words@[m].1 <= cs@.len()
                        &&& cs@.subrange(words@[m].0 as int, words@[m].1 as int) == ws[m]
                    },
                pk@ == project_key(),
                sk@ == service_key(),
                dk@ == dir_key(),
                (opt_view(r.project), opt_view(r.service), opt_view(r.working_dir)) == labels_of(
                    ws.take(k as int),
                ),
        {
            let (a, b) = words[k];
            assert(ws.take(k + 1).drop_last() =~= ws.take(k as int));
            assert(ws.take(k + 1).last() == ws[k as int]);
            if starts_with_at(&cs, a, b, &pk) {
                let from = strip_all_at(&cs, a, b, &pk);
                r.project = Some(slice_string(labels, from, b));
            } else if starts_with_at(&cs, a, b, &sk) {
                let from = strip_all_at(&cs, a, b, &sk);
                r.service = Some(slice_string(labels, from, b));
            } else if starts_with_at(&cs, a, b, &dk) {
                let from = strip_all_at(&cs, a, b, &dk);
                r.working_dir = Some(slice_string(labels, from, b));
            }
        }
        assert(ws.take(words@.len() as int) =~= ws);
        r
    }

    /// The name shown for a container named `raw_name` with these labels.
    pub fn display_name(&self, raw_name: &str) -> (r: String)
        ensures
            r@ == shown_name(
                raw_name@,
                opt_view(self.project),
                opt_view(self.service),
                opt_view(self.working_dir),
            ),
    {
        match (&self.project, &self.service) {
            (Some(p), Some(s)) => {
                let mut folder = match &self.working_dir {
                    Some(d) => last_segment_string(d.as_str()),
                    None => p.clone(),
                };
                proof {
                    reveal_strlit(" - ");
                }
                folder.append(" - ");
                folder.append(s.as_str());
                folder
            },
            _ => raw_name.to_owned(),
        }
    }
}

/// Without both a project and a service label a container keeps its own name.
pub proof fn lemma_compose_fallback(
    raw: Seq<char>,
    project: Option<Seq<char>>,
    service: Option<Seq<char>>,
    working_dir: Option<Seq<char>>,
)
    requires
        project is None || service is None,
    ensures
        shown_name(raw, project, service, working_dir) == raw,
{
}

/// One line of the runtime's container listing, split into its fields.
pub struct ContainerRow {
    pub id: String,
    pub name: String,
    pub image: String,
    pub status: String,
    pub ports: String,
    pub uptime: String,
}

/// A running container as shown.
pub struct DockerContainer {
    pub id: String,
    pub name: String,
    pub image: String,
    pub status: String,
    pub ports: String,
    pub uptime: String,
}

/// `l` without one trailing carriage return.
pub open spec fn strip_cr(l: Seq<char>) -> Seq<char> {
    if l.len() > 0 && l.last() == '\r' {
        l.drop_last()
    } else {
        l
    }
}

/// The lines of `s` as `str::lines` gives them: split at newlines, a
/// carriage return before a newline dropped.
pub open spec fn line_texts(s: Seq<char>) -> Seq<Seq<char>> {
    let p = split(s, '\n');
    p.take(p.len() - 1).map_values(|l: Seq<char>| strip_cr(l)).push(p.last())
}

pub open spec fn nonempty_only(ls: Seq<Seq<char>>) -> Seq<Seq<char>>
    decreases ls.len(),
{
    if ls.len() == 0 {
        Seq::empty()
    } else if ls.last().len() > 0 {
        nonempty_only(ls.drop_last()).push(ls.last())
    } else {
        nonempty_only(ls.drop_last())
    }
}

/// The non-empty lines of `s`.
pub open spec fn output_lines(s: Seq<char>) -> Seq<Seq<char>> {
    nonempty_only(line_texts(s))
}

/// Field `k` of `parts`, empty where there is none.
pub open spec fn field(parts: Seq<Seq<char>>, k: int) -> Seq<char> {
    if k < parts.len() {
        parts[k]
    } else {
        Seq::empty()
    }
}

/// `row` holds the `|`-separated fields of `line`: id, name, image, status,
/// ports, running time.
pub open spec fn row_of_line(row: ContainerRow, line: Seq<char>) -> bool {
    let parts = split(line, '|');
    &&& row.id@ == field(parts, 0)
    &&& row.name@ == field(parts, 1)
    &&& row.image@ == field(parts, 2)
    &&& row.status@ == field(parts, 3)
    &&& row.ports@ == field(parts, 4)
    &&& row.uptime@ == field(parts, 5)
}

fn field_string(s: &str, parts: &Vec<(usize, usize)>, k: usize) -> (r: String)
    requires
        forall|m: int|
            0 <= m < parts@.len() ==> (#[trigger] parts@[m]).0 <= parts@[m].1 <= s@.len(),
    ensures
        r@ == if k < parts@.len() {
            s@.subrange(parts@[k as int].0 as int, parts@[k as int].1 as int)
        } else {
            Seq::empty()
        },
{
    if k < parts.len() {
        slice_string(s, parts[k].0, parts[k].1)
    } else {
        String::new()
    }
}

/// The rows of the runtime's listing `stdout`, one per non-empty line.
pub fn parse_container_rows(stdout: &str) -> (r: Vec<ContainerRow>)
    ensures
        r@.len() == output_lines(stdout@).len(),
        forall|k: int| 0 <= k < r@.len() ==> row_of_line(#[trigger] r@[k], output_lines(stdout@)[k]),
{
    let cs = chars_of(stdout);
    let n = cs.len();
    let lines = split_ranges(&cs, 0, n, '\n');
    assert(cs@.subrange(0, n as int) =~= cs@);
    let ghost texts = line_texts(stdout@);
    proof {
        lemma_split_nonempty(stdout@, '\n');
    }
    let mut rows: Vec<ContainerRow> = Vec::new();
    assert(texts.take(0) =~= Seq::<Seq<char>>::empty());
    for k in 0..lines.len()
        invariant
            cs@ == stdout@,
            n == cs@.len(),
            texts == line_texts(stdout@),
            lines@.len() == split(stdout@, '\n').len(),
            lines@.len() >= 1,
            texts.len() == lines@.len(),
            forall|m: int|
                0 <= m < lines@.len() ==> {
                    &&& (#[trigger] lines@[m]).0 <= lines@[m].1 <= n
                    &&& cs@.subrange(lines@[m].0 as int, lines@[m].1 as int) == split(
                        stdout@,
                        '\n',
                    )[m]
                },
            rows@.len() == nonempty_only(texts.take(k as int)).len(),
            forall|m: int|
                0 <= m < rows@.len() ==> row_of_line(
                    #[trigger] rows@[m],
                    nonempty_only(texts.take(k as int))[m],
                ),
    {
        let (a, b0) = lines[k];
        let mut b = b0;
        if k + 1 < lines.len() && b > a && cs[b - 1] == '\r' {
            b = b - 1;
            assert(cs@.subrange(a as int, b as int) =~= cs@.subrange(a as int, b0 as int).drop_last());
        }
        assert(cs@.subrange(a as int, b as int) == texts[k as int]);
        assert(texts.take(k + 1).drop_last() =~= texts.take(k as int));
        if a < b {
            let parts = split_ranges(&cs, a, b, '|');
            let row = ContainerRow {
                id: field_string(stdout, &parts, 0),
                name: field_string(stdout, &parts, 1),
                image: field_string(stdout, &parts, 2),
                status: field_string(stdout, &parts, 3),
                ports: field_string(stdout, &parts, 4),
                uptime: field_string(stdout, &parts, 5),
            };
            rows.push(row);
        }
    }
    assert(texts.take(lines@.len() as int) =~= texts);
    rows
}

impl DockerContainer {
    /// The container shown for `row`; `labels` is the runtime's label
    /// listing for it, absent when that could not be read.
    pub fn from_row(row: &ContainerRow, labels: Option<&str>) -> (r: DockerContainer)
        ensures
            r.id@ == row.id@,
            r.image@ == row.image@,
            r.status@ == row.status@,
            r.uptime@ == row.uptime@,
            r.ports@ == ports_text(row.ports@),
            r.name@ == match labels {
                Some(t) => {
                    let (p, s, d) = labels_of(label_words(t@));
                    shown_name(row.name@, p, s, d)
                },
                None => row.name@,
            },
    {
        let name = match labels {
            Some(t) => ComposeLabels::parse(t).display_name(row.name.as_str()),
            None => row.name.clone(),
        };
        DockerContainer {
            id: row.id.clone(),
            name,
            image: row.image.clone(),
            status: row.status.clone(),
            ports: parse_ports(row.ports.as_str()),
            uptime: row.uptime.clone(),
        }
    }
}

} // verus!
