use vstd::prelude::*;

use crate::board::{Board, BoardView};
use crate::meta::{BoardMeta, LoadError, meta_of_text, texts_view};
use crate::names::{image_name_of, is_image_name_for, is_metadata_file_name, is_metadata_name, same_text};
use crate::picture::{BoardImage, ImageView, image_of, opt_image_view};

verus! {

/// One entry of a listed directory tree.
#[derive(Debug)]
pub enum Entry {
    /// A file and its contents; `None` when it could not be read.
    File { name: String, data: Option<Vec<u8>> },
    /// A directory and its entries in listing order; none when it could not be listed.
    Dir { name: String, entries: Vec<Entry> },
}

impl Entry {
    pub open spec fn name_of(self) -> Seq<char> {
        match self {
            Entry::File { name, .. } => name@,
            Entry::Dir { name, .. } => name@,
        }
    }
}

/// The name of the directory that holds a board's examples.
pub open spec fn examples_dir_name() -> Seq<char> {
    "examples"@
}

/// The text that `bytes` encode as UTF-8; `None` when they are not valid UTF-8.
pub uninterp spec fn utf8_of(bytes: Seq<u8>) -> Option<Seq<char>>;

/// Relies on String::from_utf8: the text that `bytes` encode, `None` when they are not UTF-8.
#[verifier::external_body]
fn utf8_text(bytes: &Vec<u8>) -> (r: Option<String>)
    ensures
        match r {
            Some(s) => utf8_of(bytes@) == Some(s@),
            None => utf8_of(bytes@) is None,
        },
{
    match String::from_utf8(bytes.clone()) {
        Ok(s) => Some(s),
        Err(_) => None,
    }
}

/// The index of the first file in `dir`, from `i` on, named `name`.
pub open spec fn file_named_from(dir: Seq<Entry>, i: int, name: Seq<char>) -> Option<int>
    decreases dir.len() - i,
{
    if i < 0 || i >= dir.len() {
        None
    } else if dir[i] is File && dir[i].name_of() == name {
        Some(i)
    } else {
        file_named_from(dir, i + 1, name)
    }
}

/// The index of the first directory in `dir`, from `i` on, named `examples`.
pub open spec fn examples_dir_from(dir: Seq<Entry>, i: int) -> Option<int>
    decreases dir.len() - i,
{
    if i < 0 || i >= dir.len() {
        None
    } else if dir[i] is Dir && dir[i].name_of() == examples_dir_name() {
        Some(i)
    } else {
        examples_dir_from(dir, i + 1)
    }
}

/// The names of the entries of the `examples` directory in `dir`; empty when there is none.
pub open spec fn examples_in(dir: Seq<Entry>) -> Seq<Seq<char>> {
    match examples_dir_from(dir, 0) {
        Some(j) => match dir[j] {
            Entry::Dir { entries, .. } => entries@.map_values(|e: Entry| e.name_of()),
            Entry::File { .. } => Seq::empty(),
        },
        None => Seq::empty(),
    }
}

/// The bytes of the picture beside the metadata file `meta_name` in `dir`: `None` when there
/// is no such file, `Some(None)` when it could not be read.
pub open spec fn picture_file_in(dir: Seq<Entry>, meta_name: Seq<char>) -> Option<Option<Seq<u8>>> {
    match file_named_from(dir, 0, image_name_of(meta_name)) {
        Some(j) => match dir[j] {
            Entry::File { data, .. } => match data {
                Some(d) => Some(Some(d@)),
                None => Some(None),
            },
            Entry::Dir { .. } => None,
        },
        None => None,
    }
}

/// The picture of the board whose metadata file is `meta_name` in `dir`.
pub open spec fn picture_in(dir: Seq<Entry>, meta_name: Seq<char>) -> Option<ImageView> {
    match picture_file_in(dir, meta_name) {
        Some(Some(d)) => image_of(d),
        _ => None,
    }
}

/// Whether a picture file stands beside the metadata file but yields no picture.
pub open spec fn picture_trouble(dir: Seq<Entry>, meta_name: Seq<char>) -> bool {
    picture_file_in(dir, meta_name) is Some && picture_in(dir, meta_name) is None
}

/// The board that the metadata file with this name and contents declares, with what
/// stands beside it in `dir`.
pub open spec fn board_of_file(dir: Seq<Entry>, name: Seq<char>, data: Option<Seq<u8>>) -> Result<
    BoardView,
    LoadError,
> {
    match data {
        None => Err(LoadError::Unreadable),
        Some(bytes) => match utf8_of(bytes) {
            None => Err(LoadError::Unreadable),
            Some(text) => match meta_of_text(text) {
                Err(e) => Err(e),
                Ok(m) => Ok(
                    BoardView { meta: m, examples: examples_in(dir), pic: picture_in(dir, name) },
                ),
            },
        },
    }
}

/// What went wrong with one file during a scan.
#[derive(Debug, Clone, Copy, PartialEq, Eq, Structural)]
pub enum ProblemKind {
    /// The metadata file yields no board; it was skipped.
    Skipped(LoadError),
    /// The board was kept, but its picture file could not be read or decoded.
    BadPicture,
}

/// A problem met during a scan, with the path of the metadata file concerned.
#[derive(Debug, Clone)]
pub struct Problem {
    /// Directory names from the scanned root down, then the file's own name.
    pub path: Vec<String>,
    pub kind: ProblemKind,
}

pub struct ProblemView {
    pub path: Seq<Seq<char>>,
    pub kind: ProblemKind,
}

impl View for Problem {
    type V = ProblemView;

    open spec fn view(&self) -> ProblemView {
        ProblemView { path: texts_view(self.path@), kind: self.kind }
    }
}

pub open spec fn boards_view(v: Seq<Board>) -> Seq<BoardView> {
    v.map_values(|b: Board| b@)
}

pub open spec fn problems_view(v: Seq<Problem>) -> Seq<ProblemView> {
    v.map_values(|p: Problem| p@)
}

/// What one metadata file adds to a scan, `at` being the path of its directory.
pub open spec fn file_outcome(dir: Seq<Entry>, name: Seq<char>, data: Option<Seq<u8>>, at: Seq<Seq<char>>) -> (
    Seq<BoardView>,
    Seq<ProblemView>,
) {
    match board_of_file(dir, name, data) {
        Ok(b) => (
            seq![b],
            if picture_trouble(dir, name) {
                seq![ProblemView { path: at.push(name), kind: ProblemKind::BadPicture }]
            } else {
                Seq::empty()
            },
        ),
        Err(e) => (Seq::empty(), seq![ProblemView { path: at.push(name), kind: ProblemKind::Skipped(e) }]),
    }
}

/// The boards and problems of a scan of `dir` from its `i`-th entry on: each directory is
/// scanned in turn unless it is named `examples`, each metadata file is loaded, and all
/// other files are passed over.
pub open spec fn scan_from(dir: Seq<Entry>, i: int, at: Seq<Seq<char>>) -> (Seq<BoardView>, Seq<ProblemView>)
    decreases dir, dir.len() - i,
{
    if i < 0 || i >= dir.len() {
        (Seq::empty(), Seq::empty())
    } else {
        let rest = scan_from(dir, i + 1, at);
        let here = match dir[i] {
            Entry::Dir { name, entries } => if name@ == examples_dir_name() {
                (Seq::<BoardView>::empty(), Seq::<ProblemView>::empty())
            } else {
                scan_from(entries@, 0, at.push(name@))
            },
            Entry::File { name, data } => if is_metadata_name(name@) {
                file_outcome(dir, name@, match data { Some(d) => Some(d@), None => None }, at)
            } else {
                (Seq::<BoardView>::empty(), Seq::<ProblemView>::empty())
            },
        };
        (here.0 + rest.0, here.1 + rest.1)
    }
}

pub open spec fn data_view(d: Option<Vec<u8>>) -> Option<Seq<u8>> {
    match d {
        Some(v) => Some(v@),
        None => None,
    }
}

/// The index of the first file in `dir` that is the picture of the metadata file `meta_name`.
fn find_picture_file(dir: &Vec<Entry>, meta_name: &str) -> (r: Option<usize>)
    ensures
        match r {
            Some(j) => j < dir@.len() && file_named_from(dir@, 0, image_name_of(meta_name@)) == Some(j as int),
            None => file_named_from(dir@, 0, image_name_of(meta_name@)) is None,
        },
{
    let ghost want = image_name_of(meta_name@);
    let mut i: usize = 0;
    while i < dir.len()
        invariant
            i <= dir@.len(),
            want == image_name_of(meta_name@),
            file_named_from(dir@, 0, want) == file_named_from(dir@, i as int, want),
        decreases dir.len() - i,
    {
        match &dir[i] {
            Entry::File { name, .. } => {
                assert(dir@[i as int] is File && dir@[i as int].name_of() == name@);
                if is_image_name_for(meta_name, name.as_str()) {
                    assert(file_named_from(dir@, i as int, want) == Some(i as int));
                    return Some(i);
                }
                assert(file_named_from(dir@, i as int, want) == file_named_from(dir@, i + 1, want));
            },
            Entry::Dir { .. } => {},
        }
        i = i + 1;
    }
    None
}

/// The index of the first directory in `dir` named `examples`.
fn find_examples_dir(dir: &Vec<Entry>) -> (r: Option<usize>)
    ensures
        match r {
            Some(j) => j < dir@.len() && examples_dir_from(dir@, 0) == Some(j as int),
            None => examples_dir_from(dir@, 0) is None,
        },
{
    let mut i: usize = 0;
    while i < dir.len()
        invariant
            i <= dir@.len(),
            examples_dir_from(dir@, 0) == examples_dir_from(dir@, i as int),
        decreases dir.len() - i,
    {
        match &dir[i] {
            Entry::Dir { name, .. } => {
                proof {
                    reveal_strlit("examples");
                }
                if same_text(name.as_str(), "examples") {
                    return Some(i);
                }
            },
            Entry::File { .. } => {},
        }
        i = i + 1;
    }
    None
}

/// The names of `entries`, in order.
fn entry_names(entries: &Vec<Entry>) -> (r: Vec<String>)
    ensures
        texts_view(r@) == entries@.map_values(|e: Entry| e.name_of()),
{
    let mut out: Vec<String> = Vec::new();
    let mut i: usize = 0;
    while i < entries.len()
        invariant
            i <= entries@.len(),
            texts_view(out@) == entries@.subrange(0, i as int).map_values(|e: Entry| e.name_of()),
        decreases entries.len() - i,
    {
        let ghost before = out@;
        let n = match &entries[i] {
            Entry::File { name, .. } => name.clone(),
            Entry::Dir { name, .. } => name.clone(),
        };
        assert(n@ == entries@[i as int].name_of());
        out.push(n);
        assert(texts_view(out@) =~= texts_view(before).push(n@));
        assert(entries@.subrange(0, i + 1) == entries@.subrange(0, i as int).push(entries@[i as int]));
        assert(texts_view(out@) =~= entries@.subrange(0, i + 1).map_values(|e: Entry| e.name_of()));
        i = i + 1;
    }
    assert(entries@.subrange(0, entries@.len() as int) == entries@);
    out
}

/// The names of the entries of the `examples` directory in `dir`.
fn examples_for(dir: &Vec<Entry>) -> (r: Vec<String>)
    ensures
        texts_view(r@) == examples_in(dir@),
{
    match find_examples_dir(dir) {
        Some(j) => match &dir[j] {
            Entry::Dir { entries, .. } => entry_names(entries),
            Entry::File { .. } => {
                let v: Vec<String> = Vec::new();
                assert(texts_view(v@) == Seq::<Seq<char>>::empty());
                v
            },
        },
        None => {
            let v: Vec<String> = Vec::new();
            assert(texts_view(v@) == Seq::<Seq<char>>::empty());
            v
        },
    }
}

/// The picture of the board whose metadata file is `meta_name` in `dir`, and whether a
/// picture file stands there but yields none.
fn picture_for(dir: &Vec<Entry>, meta_name: &str) -> (r: (Option<BoardImage>, bool))
    ensures
        opt_image_view(r.0) == picture_in(dir@, meta_name@),
        r.1 == picture_trouble(dir@, meta_name@),
        r.0 matches Some(i) ==> i.wf(),
{
    match find_picture_file(dir, meta_name) {
        Some(j) => match &dir[j] {
            Entry::File { data, .. } => match data {
                Some(bytes) => {
                    let pic = BoardImage::decode(bytes.as_slice());
                    let trouble = pic.is_none();
                    (pic, trouble)
                },
                None => (None, true),
            },
            Entry::Dir { .. } => (None, false),
        },
        None => (None, false),
    }
}

/// The board that a metadata file declares, with what stands beside it in `dir`, and
/// whether its picture file yields no picture.
pub fn load_board(dir: &Vec<Entry>, name: &str, data: &Option<Vec<u8>>) -> (r: (
    Result<Board, LoadError>,
    bool,
))
    ensures
        match r.0 {
            Ok(b) => board_of_file(dir@, name@, data_view(*data)) == Ok::<BoardView, LoadError>(b@),
            Err(e) => board_of_file(dir@, name@, data_view(*data)) == Err::<BoardView, LoadError>(e),
        },
        r.0 is Ok ==> r.1 == picture_trouble(dir@, name@),
{
    match data {
        None => (Err(LoadError::Unreadable), false),
        Some(bytes) => match utf8_text(bytes) {
            None => (Err(LoadError::Unreadable), false),
            Some(text) => {
                let m = BoardMeta::from_text(text.as_str());
                match m {
                    Err(e) => (Err(e), false),
                    Ok(meta) => {
                        let examples = examples_for(dir);
                        let (pic, trouble) = picture_for(dir, name);
                        (Ok(Board::new(meta, examples, pic)), trouble)
                    },
                }
            },
        },
    }
}

/// A copy of a path.
fn copy_path(at: &Vec<String>) -> (r: Vec<String>)
    ensures
        texts_view(r@) == texts_view(at@),
{
    let mut out: Vec<String> = Vec::new();
    let mut i: usize = 0;
    while i < at.len()
        invariant
            i <= at@.len(),
            texts_view(out@) == texts_view(at@.subrange(0, i as int)),
        decreases at.len() - i,
    {
        let ghost before = out@;
        let c = at[i].clone();
        assert(c == at@[i as int]);
        out.push(c);
        assert(out@ == before.push(c));
        assert(texts_view(before.push(c)) =~= texts_view(before).push(c@));
        assert(at@.subrange(0, i + 1) == at@.subrange(0, i as int).push(at@[i as int]));
        assert(texts_view(out@) =~= texts_view(at@.subrange(0, i + 1)));
        i = i + 1;
    }
    assert(at@.subrange(0, at@.len() as int) == at@);
    out
}

/// `at` extended by `name`.
fn path_to(at: &Vec<String>, name: &String) -> (r: Vec<String>)
    ensures
        texts_view(r@) == texts_view(at@).push(name@),
{
    let mut p = copy_path(at);
    p.push(name.clone());
    assert(texts_view(p@) =~= texts_view(at@).push(name@));
    p
}

/// Adds what the metadata file `name` in `dir` yields to `boards` and `problems`; `at` is
/// the path of `dir`.
fn load_file_into(
    dir: &Vec<Entry>,
    name: &String,
    data: &Option<Vec<u8>>,
    at: &Vec<String>,
    boards: &mut Vec<Board>,
    problems: &mut Vec<Problem>,
)
    ensures
        boards_view(final(boards)@) == boards_view(old(boards)@) + file_outcome(
            dir@,
            name@,
            data_view(*data),
            texts_view(at@),
        ).0,
        problems_view(final(problems)@) == problems_view(old(problems)@) + file_outcome(
            dir@,
            name@,
            data_view(*data),
            texts_view(at@),
        ).1,
{
    let ghost out = file_outcome(dir@, name@, data_view(*data), texts_view(at@));
    let ghost b0 = boards@;
    let ghost p0 = problems@;
    let (result, trouble) = load_board(dir, name.as_str(), data);
    match result {
        Ok(b) => {
            boards.push(b);
            assert(boards_view(boards@) =~= boards_view(b0) + out.0);
            if trouble {
                let p = Problem { path: path_to(at, name), kind: ProblemKind::BadPicture };
                problems.push(p);
                assert(problems_view(problems@) =~= problems_view(p0) + out.1);
            } else {
                assert(problems_view(problems@) =~= problems_view(p0) + out.1);
            }
        },
        Err(e) => {
            let p = Problem { path: path_to(at, name), kind: ProblemKind::Skipped(e) };
            problems.push(p);
            assert(boards_view(boards@) =~= boards_view(b0) + out.0);
            assert(problems_view(problems@) =~= problems_view(p0) + out.1);
        },
    }
}

/// Adds the boards and problems of a scan of `dir`, whose path is `at`, to `boards` and
/// `problems`.
fn scan_into(dir: &Vec<Entry>, at: &Vec<String>, boards: &mut Vec<Board>, problems: &mut Vec<Problem>)
    ensures
        boards_view(final(boards)@) == boards_view(old(boards)@) + scan_from(dir@, 0, texts_view(at@)).0,
        problems_view(final(problems)@) == problems_view(old(problems)@) + scan_from(
            dir@,
            0,
            texts_view(at@),
        ).1,
    decreases dir@,
{
    let ghost a = texts_view(at@);
    let ghost b0 = boards_view(boards@);
    let ghost p0 = problems_view(problems@);
    let mut i: usize = 0;
    while i < dir.len()
        invariant
            i <= dir@.len(),
            a == texts_view(at@),
            boards_view(boards@) + scan_from(dir@, i as int, a).0 == b0 + scan_from(dir@, 0, a).0,
            problems_view(problems@) + scan_from(dir@, i as int, a).1 == p0 + scan_from(dir@, 0, a).1,
        decreases dir.len() - i,
    {
        let ghost bi = boards_view(boards@);
        let ghost pi = problems_view(problems@);
        let ghost rest = scan_from(dir@, i + 1, a);
        match &dir[i] {
            Entry::Dir { name, entries } => {
                proof {
                    reveal_strlit("examples");
                }
                if same_text(name.as_str(), "examples") {
                    assert(boards_view(boards@) + scan_from(dir@, i + 1, a).0 =~= bi + scan_from(dir@, i as int, a).0);
                    assert(problems_view(problems@) + scan_from(dir@, i + 1, a).1 =~= pi + scan_from(dir@, i as int, a).1);
                } else {
                    let child = path_to(at, name);
                    assert(decreases_to!(dir@ => dir@[i as int]));
                    scan_into(entries, &child, boards, problems);
                    let ghost here = scan_from(entries@, 0, a.push(name@));
                    assert(scan_from(dir@, i as int, a).0 == here.0 + rest.0);
                    assert(boards_view(boards@) + rest.0 =~= bi + scan_from(dir@, i as int, a).0);
                    assert(problems_view(problems@) + rest.1 =~= pi + scan_from(dir@, i as int, a).1);
                }
            },
            Entry::File { name, data } => {
                if is_metadata_file_name(name.as_str()) {
                    load_file_into(dir, name, data, at, boards, problems);
                    let ghost here = file_outcome(dir@, name@, data_view(*data), a);
                    assert(scan_from(dir@, i as int, a).0 == here.0 + rest.0);
                    assert(boards_view(boards@) + rest.0 =~= bi + scan_from(dir@, i as int, a).0);
                    assert(problems_view(problems@) + rest.1 =~= pi + scan_from(dir@, i as int, a).1);
                } else {
                    assert(boards_view(boards@) + rest.0 =~= bi + scan_from(dir@, i as int, a).0);
                    assert(problems_view(problems@) + rest.1 =~= pi + scan_from(dir@, i as int, a).1);
                }
            },
        }
        i = i + 1;
    }
    assert(boards_view(boards@) =~= boards_view(boards@) + scan_from(dir@, i as int, a).0);
    assert(problems_view(problems@) =~= problems_view(problems@) + scan_from(dir@, i as int, a).1);
}

/// The outcome of a scan: the boards found, and the problems met on the way.
#[derive(Debug)]
pub struct Catalog {
    pub boards: Vec<Board>,
    pub problems: Vec<Problem>,
}

/// The boards of the listed tree `root`.
pub open spec fn boards_under(root: Seq<Entry>) -> Seq<BoardView> {
    scan_from(root, 0, Seq::empty()).0
}

/// The problems met while scanning the listed tree `root`.
pub open spec fn problems_under(root: Seq<Entry>) -> Seq<ProblemView> {
    scan_from(root, 0, Seq::empty()).1
}

/// Scans the listed tree `root`: every metadata file outside `examples` directories yields
/// a board, or a problem when it cannot be loaded.
pub fn scan(root: &Vec<Entry>) -> (r: Catalog)
    ensures
        boards_view(r.boards@) == boards_under(root@),
        problems_view(r.problems@) == problems_under(root@),
{
    let mut boards: Vec<Board> = Vec::new();
    let mut problems: Vec<Problem> = Vec::new();
    let at: Vec<String> = Vec::new();
    assert(texts_view(at@) =~= Seq::<Seq<char>>::empty());
    scan_into(root, &at, &mut boards, &mut problems);
    assert(boards_view(Seq::<Board>::empty()) =~= Seq::<BoardView>::empty());
    assert(problems_view(Seq::<Problem>::empty()) =~= Seq::<ProblemView>::empty());
    assert(boards_view(boards@) =~= boards_under(root@));
    assert(problems_view(problems@) =~= problems_under(root@));
    Catalog { boards, problems }
}

/// The boards of the listed tree `root`, in listing order.
pub fn get_boards(root: &Vec<Entry>) -> (r: Vec<Board>)
    ensures
        boards_view(r@) == boards_under(root@),
{
    scan(root).boards
}

/// A metadata file reached by a scan, with the entries of the directory that holds it.
pub struct Reached {
    pub dir: Seq<Entry>,
    /// The path of `dir`.
    pub at: Seq<Seq<char>>,
    pub name: Seq<char>,
    pub data: Option<Seq<u8>>,
}

/// The metadata files reachable from the `i`-th entry of `dir` on, in listing order,
/// without entering a directory named `examples`; `at` is the path of `dir`.
pub open spec fn reachable_from(dir: Seq<Entry>, i: int, at: Seq<Seq<char>>) -> Seq<Reached>
    decreases dir, dir.len() - i,
{
    if i < 0 || i >= dir.len() {
        Seq::empty()
    } else {
        let here = match dir[i] {
            Entry::Dir { name, entries } => if name@ == examples_dir_name() {
                Seq::<Reached>::empty()
            } else {
                reachable_from(entries@, 0, at.push(name@))
            },
            Entry::File { name, data } => if is_metadata_name(name@) {
                seq![Reached { dir, at, name: name@, data: data_view(data) }]
            } else {
                Seq::<Reached>::empty()
            },
        };
        here + reachable_from(dir, i + 1, at)
    }
}

/// The boards that the files of `fs` yield, in order, passing over those that do not load.
pub open spec fn loaded_boards(fs: Seq<Reached>) -> Seq<BoardView>
    decreases fs.len(),
{
    if fs.len() == 0 {
        Seq::empty()
    } else {
        let last = fs.last();
        loaded_boards(fs.drop_last()) + match board_of_file(last.dir, last.name, last.data) {
            Ok(b) => seq![b],
            Err(_) => Seq::<BoardView>::empty(),
        }
    }
}

/// The problems that the files of `fs` give, in order: each file that does not load is
/// reported as skipped, with its path and why.
pub open spec fn reported_problems(fs: Seq<Reached>) -> Seq<ProblemView>
    decreases fs.len(),
{
    if fs.len() == 0 {
        Seq::empty()
    } else {
        let last = fs.last();
        reported_problems(fs.drop_last()) + file_outcome(last.dir, last.name, last.data, last.at).1
    }
}

/// How many of the files of `fs` load.
pub open spec fn loadable_count(fs: Seq<Reached>) -> nat
    decreases fs.len(),
{
    if fs.len() == 0 {
        0
    } else {
        let last = fs.last();
        loadable_count(fs.drop_last()) + if board_of_file(last.dir, last.name, last.data) is Ok {
            1nat
        } else {
            0nat
        }
    }
}

proof fn lemma_loaded_boards_add(a: Seq<Reached>, b: Seq<Reached>)
    ensures
        loaded_boards(a + b) == loaded_boards(a) + loaded_boards(b),
        loadable_count(a + b) == loadable_count(a) + loadable_count(b),
        reported_problems(a + b) == reported_problems(a) + reported_problems(b),
    decreases b.len(),
{
    if b.len() == 0 {
        assert(a + b =~= a);
        assert(loaded_boards(a) + loaded_boards(b) =~= loaded_boards(a));
        assert(reported_problems(a) + reported_problems(b) =~= reported_problems(a));
    } else {
        lemma_loaded_boards_add(a, b.drop_last());
        assert((a + b).drop_last() =~= a + b.drop_last());
        assert((a + b).last() == b.last());
        assert(loaded_boards(a + b) =~= loaded_boards(a) + loaded_boards(b));
        assert(reported_problems(a + b) =~= reported_problems(a) + reported_problems(b));
    }
}

proof fn lemma_loaded_boards_one(f: Reached)
    ensures
        loaded_boards(seq![f]) == match board_of_file(f.dir, f.name, f.data) {
            Ok(b) => seq![b],
            Err(_) => Seq::<BoardView>::empty(),
        },
        loadable_count(seq![f]) == if board_of_file(f.dir, f.name, f.data) is Ok {
            1nat
        } else {
            0nat
        },
        reported_problems(seq![f]) == file_outcome(f.dir, f.name, f.data, f.at).1,
{
    assert(seq![f].drop_last() =~= Seq::<Reached>::empty());
    assert(loadable_count(Seq::<Reached>::empty()) == 0);
    assert(reported_problems(Seq::<Reached>::empty()) + file_outcome(f.dir, f.name, f.data, f.at).1
        =~= file_outcome(f.dir, f.name, f.data, f.at).1);
    assert(loaded_boards(Seq::<Reached>::empty()) + loaded_boards(seq![f]) =~= loaded_boards(seq![f]));
}

/// The boards of a scan are those of the reachable metadata files that load, in order:
/// a file that does not load is passed over, with a problem reported for it, and every
/// other file still yields its board.
pub proof fn lemma_scan_keeps_every_loadable(dir: Seq<Entry>, i: int, at: Seq<Seq<char>>)
    ensures
        scan_from(dir, i, at).0 == loaded_boards(reachable_from(dir, i, at)),
        scan_from(dir, i, at).1 == reported_problems(reachable_from(dir, i, at)),
    decreases dir, dir.len() - i,
{
    if i < 0 || i >= dir.len() {
        assert(loaded_boards(Seq::<Reached>::empty()) == Seq::<BoardView>::empty());
        assert(reported_problems(Seq::<Reached>::empty()) == Seq::<ProblemView>::empty());
    } else {
        lemma_scan_keeps_every_loadable(dir, i + 1, at);
        let here = match dir[i] {
            Entry::Dir { name, entries } => if name@ == examples_dir_name() {
                Seq::<Reached>::empty()
            } else {
                reachable_from(entries@, 0, at.push(name@))
            },
            Entry::File { name, data } => if is_metadata_name(name@) {
                seq![Reached { dir, at, name: name@, data: data_view(data) }]
            } else {
                Seq::<Reached>::empty()
            },
        };
        lemma_loaded_boards_add(here, reachable_from(dir, i + 1, at));
        assert(loaded_boards(Seq::<Reached>::empty()) == Seq::<BoardView>::empty());
        assert(reported_problems(Seq::<Reached>::empty()) == Seq::<ProblemView>::empty());
        match dir[i] {
            Entry::Dir { name, entries } => {
                if name@ != examples_dir_name() {
                    assert(decreases_to!(dir => dir[i]));
                    lemma_scan_keeps_every_loadable(entries@, 0, at.push(name@));
                }
                assert(scan_from(dir, i, at).0 =~= loaded_boards(reachable_from(dir, i, at)));
                assert(scan_from(dir, i, at).1 =~= reported_problems(reachable_from(dir, i, at)));
            },
            Entry::File { name, data } => {
                if is_metadata_name(name@) {
                    lemma_loaded_boards_one(Reached { dir, at, name: name@, data: data_view(data) });
                }
                assert(scan_from(dir, i, at).0 =~= loaded_boards(reachable_from(dir, i, at)));
                assert(scan_from(dir, i, at).1 =~= reported_problems(reachable_from(dir, i, at)));
            },
        }
    }
}

proof fn lemma_loaded_boards_len(fs: Seq<Reached>)
    ensures
        loaded_boards(fs).len() == loadable_count(fs),
    decreases fs.len(),
{
    if fs.len() > 0 {
        lemma_loaded_boards_len(fs.drop_last());
    }
}

/// A scan yields exactly as many boards as there are loadable metadata files reachable
/// without entering a directory named `examples`.
pub proof fn lemma_board_count(root: Seq<Entry>)
    ensures
        boards_under(root).len() == loadable_count(reachable_from(root, 0, Seq::empty())),
{
    lemma_scan_keeps_every_loadable(root, 0, Seq::empty());
    lemma_loaded_boards_len(reachable_from(root, 0, Seq::empty()));
}

/// A directory named `examples` is never scanned as a container of boards: at any depth it
/// adds neither boards nor problems, and nothing in it is reached.
pub proof fn lemma_examples_dir_not_scanned(dir: Seq<Entry>, i: int, at: Seq<Seq<char>>)
    requires
        0 <= i < dir.len(),
        dir[i] is Dir,
        dir[i].name_of() == examples_dir_name(),
    ensures
        scan_from(dir, i, at) == scan_from(dir, i + 1, at),
        reachable_from(dir, i, at) == reachable_from(dir, i + 1, at),
{
    let r = scan_from(dir, i + 1, at);
    assert(Seq::<BoardView>::empty() + r.0 =~= r.0);
    assert(Seq::<ProblemView>::empty() + r.1 =~= r.1);
    assert(Seq::<Reached>::empty() + reachable_from(dir, i + 1, at) =~= reachable_from(dir, i + 1, at));
}

/// The contents of the `examples` directory beside a metadata file reach its board only as
/// the board's list of examples: their names, in listing order.
pub proof fn lemma_examples_are_sibling_names(dir: Seq<Entry>, j: int, name: Seq<char>, data: Option<Seq<u8>>)
    requires
        examples_dir_from(dir, 0) == Some(j),
        0 <= j < dir.len(),
    ensures
        board_of_file(dir, name, data) matches Ok(b) ==> b.examples == match dir[j] {
            Entry::Dir { entries, .. } => entries@.map_values(|e: Entry| e.name_of()),
            Entry::File { .. } => Seq::empty(),
        },
{
}

/// Whether a metadata file with these contents yields a board does not depend on what
/// stands beside it.
pub open spec fn declares_board(data: Option<Seq<u8>>) -> bool {
    match data {
        Some(bytes) => match utf8_of(bytes) {
            Some(text) => meta_of_text(text) is Ok,
            None => false,
        },
        None => false,
    }
}

/// With no picture file beside it, a metadata file yields a board without a picture, and
/// that is no error.
pub proof fn lemma_no_picture_no_error(dir: Seq<Entry>, name: Seq<char>, data: Option<Seq<u8>>)
    requires
        file_named_from(dir, 0, image_name_of(name)) is None,
    ensures
        board_of_file(dir, name, data) is Ok <==> declares_board(data),
        board_of_file(dir, name, data) matches Ok(b) ==> b.pic is None,
        !picture_trouble(dir, name),
{
}

/// With no `examples` directory beside it, a metadata file yields a board with no
/// examples, and that is no error.
pub proof fn lemma_no_examples_no_error(dir: Seq<Entry>, name: Seq<char>, data: Option<Seq<u8>>)
    requires
        examples_dir_from(dir, 0) is None,
    ensures
        board_of_file(dir, name, data) is Ok <==> declares_board(data),
        board_of_file(dir, name, data) matches Ok(b) ==> b.examples.len() == 0,
{
}

} // verus!
