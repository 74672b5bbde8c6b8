use vstd::prelude::*;

use crate::board::{board_from_text, Board};
use crate::card::Card;
use crate::error::ParseError;
use crate::fields::{decimal_micros, parse_decimal, split_on, split_spec, texts};
use crate::situation::{Action, Betsize, Positions};
use crate::stats::{build_data_row, is_average, stat_row_bounded, StatRow};
use crate::text::text_is;
use crate::texture::{
    has_connection, has_height, pair_of, suit_of, BoardHeight, BoardPair, BoardSuit, Connection,
};

verus! {

/// What a summary is asked for: the situation (positions, bet sizes, actions) and the
/// texture filter, one list of wanted values per dimension.
///
/// An empty list asks for nothing in its dimension; a board passes a non-empty list when it
/// has at least one of the values in it, and passes the filter when it passes every list.
#[derive(Debug)]
pub struct Args {
    pub positions: Positions,
    pub betsizes: Vec<Betsize>,
    pub heights: Vec<BoardHeight>,
    pub suits: Vec<BoardSuit>,
    pub connections: Vec<Connection>,
    pub pair: Vec<BoardPair>,
    pub actions: Vec<Action>,
}

/// Failure of a summary.
#[derive(Debug)]
pub enum CalcError {
    /// A line lacks fields, or a statistic is no decimal number.
    Parse(ParseError),
    /// The board text is given on two lines.
    DuplicateBoard(String),
    /// A line's board text codes no board.
    InvalidBoard(ParseError),
    /// No board passes the filter.
    NoMatchingBoards,
    /// Two bet sizes of one situation were computed over different boards.
    SituationMismatch,
}

pub open spec fn matches_filter(cs: Seq<Card>, args: Args) -> bool {
    &&& (args.heights@.len() == 0 || exists|i: int|
        0 <= i < args.heights@.len() && has_height(cs, #[trigger] args.heights@[i]))
    &&& (args.suits@.len() == 0 || exists|i: int|
        0 <= i < args.suits@.len() && suit_of(cs) == #[trigger] args.suits@[i])
    &&& (args.connections@.len() == 0 || exists|i: int|
        0 <= i < args.connections@.len() && has_connection(cs, #[trigger] args.connections@[i]))
    &&& (args.pair@.len() == 0 || exists|i: int|
        0 <= i < args.pair@.len() && pair_of(cs) == #[trigger] args.pair@[i])
}

/// Whether the board passes the texture filter of `args`.
pub fn board_matches_conditions(board: &Board, args: &Args) -> (r: bool)
    requires
        board.wf(),
    ensures
        r == matches_filter(board.cards@, *args),
{
    let mut heights_match = args.heights.len() == 0;
    let mut i: usize = 0;
    while i < args.heights.len() && !heights_match
        invariant
            board.wf(),
            i <= args.heights@.len(),
            heights_match == (args.heights@.len() == 0 || exists|k: int|
                0 <= k < i && has_height(board.cards@, #[trigger] args.heights@[k])),
        decreases args.heights@.len() - i,
    {
        heights_match = board.is_height(&args.heights[i]);
        i = i + 1;
    }
    let mut suits_match = args.suits.len() == 0;
    let mut i: usize = 0;
    while i < args.suits.len() && !suits_match
        invariant
            board.wf(),
            i <= args.suits@.len(),
            suits_match == (args.suits@.len() == 0 || exists|k: int|
                0 <= k < i && suit_of(board.cards@) == #[trigger] args.suits@[k]),
        decreases args.suits@.len() - i,
    {
        suits_match = board.is_suit(&args.suits[i]);
        i = i + 1;
    }
    let mut connections_match = args.connections.len() == 0;
    let mut i: usize = 0;
    while i < args.connections.len() && !connections_match
        invariant
            board.wf(),
            i <= args.connections@.len(),
            connections_match == (args.connections@.len() == 0 || exists|k: int|
                0 <= k < i && has_connection(board.cards@, #[trigger] args.connections@[k])),
        decreases args.connections@.len() - i,
    {
        connections_match = board.is_connection(&args.connections[i]);
        i = i + 1;
    }
    let mut pair_match = args.pair.len() == 0;
    let mut i: usize = 0;
    while i < args.pair.len() && !pair_match
        invariant
            board.wf(),
            i <= args.pair@.len(),
            pair_match == (args.pair@.len() == 0 || exists|k: int|
                0 <= k < i && pair_of(board.cards@) == #[trigger] args.pair@[k]),
        decreases args.pair@.len() - i,
    {
        pair_match = board.is_pair(&args.pair[i]);
        i = i + 1;
    }
    heights_match && suits_match && connections_match && pair_match
}

/// A filter with no wanted value in any dimension passes every board.
pub proof fn lemma_empty_filter_matches_all(cs: Seq<Card>, args: Args)
    requires
        args.heights@.len() == 0,
        args.suits@.len() == 0,
        args.connections@.len() == 0,
        args.pair@.len() == 0,
    ensures
        matches_filter(cs, args),
{
}

// ---------------------------------------------------------------------------
// Solver output text.

/// The data lines of an output file: every line after the header that is not empty.
pub open spec fn data_lines_spec(content: Seq<char>) -> Seq<Seq<char>> {
    non_empty(split_spec(content, '\n').drop_first())
}

pub open spec fn non_empty(ls: Seq<Seq<char>>) -> Seq<Seq<char>>
    decreases ls.len(),
{
    if ls.len() == 0 {
        Seq::empty()
    } else if ls.last().len() > 0 {
        non_empty(ls.drop_last()).push(ls.last())
    } else {
        non_empty(ls.drop_last())
    }
}

/// The data lines of an output file: every line after the header that is not empty.
pub fn get_lines(content: &str) -> (r: Vec<String>)
    ensures
        texts(r@) == data_lines_spec(content@),
{
    let lines = split_on(content, '\n');
    let ghost all = split_spec(content@, '\n').drop_first();
    let mut r: Vec<String> = Vec::new();
    let mut i: usize = 1;
    proof {
        assert(all.subrange(0, 0) =~= Seq::<Seq<char>>::empty());
        assert(texts(r@) =~= Seq::<Seq<char>>::empty());
    }
    while i < lines.len()
        invariant
            1 <= i <= lines@.len(),
            texts(lines@) == split_spec(content@, '\n'),
            all == texts(lines@).drop_first(),
            texts(r@) == non_empty(all.subrange(0, i - 1)),
        decreases lines@.len() - i,
    {
        let ghost old_r = texts(r@);
        proof {
            assert(all.subrange(0, i as int).drop_last() =~= all.subrange(0, i - 1));
            assert(all.subrange(0, i as int).last() == lines@[i as int]@);
        }
        if lines[i].unicode_len() > 0 {
            r.push(lines[i].clone());
            proof {
                assert(texts(r@) =~= old_r.push(lines@[i as int]@));
            }
        }
        i = i + 1;
    }
    proof {
        if lines@.len() >= 1 {
            assert(all.subrange(0, lines@.len() - 1) =~= all);
        }
    }
    r
}

/// Number of tab-separated fields a data line needs: the board and four statistics.
pub const LINE_FIELDS: usize = 5;

/// The board text and statistics that a data line holds, if it is well formed: at least
/// five tab-separated fields, the second to fifth of them decimal numbers.
pub open spec fn line_record(l: Seq<char>) -> Option<(Seq<char>, StatRow)> {
    let p = split_spec(l, '\t');
    if p.len() < LINE_FIELDS {
        None
    } else {
        match (decimal_micros(p[1]), decimal_micros(p[2]), decimal_micros(p[3]), decimal_micros(p[4])) {
            (Some(eq), Some(ev), Some(bet), Some(check)) => Some(
                (
                    p[0],
                    StatRow {
                        size: None,
                        eq: eq as u64,
                        ev: ev as u64,
                        bet_freq: bet as u64,
                        check_freq: check as u64,
                    },
                ),
            ),
            _ => None,
        }
    }
}

/// Reads a statistic field, or names the field in the error.
fn read_stat(field: &String) -> (r: Result<u64, ParseError>)
    ensures
        r matches Ok(v) ==> decimal_micros(field@) == Some(v as nat) && v < 1_000_000_000_000_000,
        r matches Err(e) ==> decimal_micros(field@) is None && e.kind@ == "number"@ && e.input@
            == field@,
{
    match parse_decimal(field.as_str()) {
        Some(v) => Ok(v),
        None => {
            proof {
                reveal_strlit("number");
            }
            Err(ParseError::str("number", field.as_str()))
        },
    }
}

impl StatRow {
    /// Reads the (untagged) statistics of a data line.
    pub fn new(line: &str) -> (r: Result<StatRow, ParseError>)
        ensures
            r matches Ok(row) ==> line_record(line@) matches Some(rec) && rec.1 == row,
            r is Err <==> line_record(line@) is None,
    {
        match parse_line(line) {
            Ok((_, row)) => Ok(row),
            Err(e) => Err(e),
        }
    }
}

/// Splits a data line into its board text and its statistics (untagged).
pub fn parse_line(line: &str) -> (r: Result<(String, StatRow), ParseError>)
    ensures
        r matches Ok((b, row)) ==> line_record(line@) == Some((b@, row)) && stat_row_bounded(row),
        r is Err <==> line_record(line@) is None,
        r matches Err(e) ==> (split_spec(line@, '\t').len() < LINE_FIELDS ==> e.kind@ == "line"@
            && e.input@ == line@),
{
    let fields = split_on(line, '\t');
    proof {
        assert(texts(fields@).len() == fields@.len());
    }
    if fields.len() < LINE_FIELDS {
        proof {
            reveal_strlit("line");
        }
        return Err(ParseError::str("line", line));
    }
    proof {
        assert(texts(fields@)[1] == fields@[1]@);
        assert(texts(fields@)[2] == fields@[2]@);
        assert(texts(fields@)[3] == fields@[3]@);
        assert(texts(fields@)[4] == fields@[4]@);
        assert(texts(fields@)[0] == fields@[0]@);
    }
    let eq = match read_stat(&fields[1]) {
        Ok(v) => v,
        Err(e) => return Err(e),
    };
    let ev = match read_stat(&fields[2]) {
        Ok(v) => v,
        Err(e) => return Err(e),
    };
    let bet_freq = match read_stat(&fields[3]) {
        Ok(v) => v,
        Err(e) => return Err(e),
    };
    let check_freq = match read_stat(&fields[4]) {
        Ok(v) => v,
        Err(e) => return Err(e),
    };
    let row = StatRow { size: None, eq, ev, bet_freq, check_freq };
    Ok((fields[0].clone(), row))
}

// ---------------------------------------------------------------------------
// Summaries.

pub open spec fn all_lines_parse(ls: Seq<Seq<char>>) -> bool {
    forall|i: int| 0 <= i < ls.len() ==> (#[trigger] line_record(ls[i])) is Some
}

pub open spec fn board_text_of(l: Seq<char>) -> Seq<char> {
    (line_record(l)->0).0
}

pub open spec fn row_of(l: Seq<char>) -> StatRow {
    (line_record(l)->0).1
}

pub open spec fn has_duplicate_board(ls: Seq<Seq<char>>) -> bool {
    exists|i: int, j: int|
        0 <= i < j < ls.len() && #[trigger] board_text_of(ls[i]) == #[trigger] board_text_of(ls[j])
}

pub open spec fn all_boards_valid(ls: Seq<Seq<char>>) -> bool {
    forall|i: int| 0 <= i < ls.len() ==> (#[trigger] board_from_text(board_text_of(ls[i]))) is Some
}

pub open spec fn cards_of(l: Seq<char>) -> Seq<Card> {
    board_from_text(board_text_of(l))->0
}

/// The lines whose board passes the filter, in their order.
pub open spec fn kept(ls: Seq<Seq<char>>, args: Args) -> Seq<Seq<char>>
    decreases ls.len(),
{
    if ls.len() == 0 {
        Seq::empty()
    } else if matches_filter(cards_of(ls.last()), args) {
        kept(ls.drop_last(), args).push(ls.last())
    } else {
        kept(ls.drop_last(), args)
    }
}

pub open spec fn board_views(v: Seq<Board>) -> Seq<Seq<Card>> {
    v.map_values(|b: Board| b.cards@)
}

/// The summary of one bet size: the average over the kept lines, tagged with the size.
pub open spec fn is_summary(row: StatRow, ls: Seq<Seq<char>>, args: Args, size: Betsize) -> bool {
    let rows = kept(ls, args).map_values(|l: Seq<char>| row_of(l));
    &&& row.size == Some(size)
    &&& is_average(StatRow { size: None, ..row }, rows)
}

/// Position of a board text given on an earlier line too, if any.
fn find_duplicate(records: &Vec<(String, StatRow)>) -> (r: Option<usize>)
    ensures
        r is None ==> forall|i: int, j: int|
            0 <= i < j < records@.len() ==> records@[i].0@ != records@[j].0@,
        r matches Some(j) ==> j < records@.len() && exists|i: int|
            0 <= i < j && records@[i].0@ == records@[j as int].0@,
{
    let mut j: usize = 1;
    while j < records.len()
        invariant
            forall|a: int, b: int|
                0 <= a < b < j && b < records@.len() ==> records@[a].0@ != records@[b].0@,
        decreases records@.len() - j,
    {
        let mut i: usize = 0;
        while i < j
            invariant
                j < records@.len(),
                i <= j,
                forall|a: int| 0 <= a < i ==> records@[a].0@ != records@[j as int].0@,
            decreases j - i,
        {
            if text_is(records[i].0.as_str(), records[j].0.as_str()) {
                return Some(j);
            }
            i = i + 1;
        }
        j = j + 1;
    }
    None
}

/// Averages the statistics of one bet size over the boards that pass the filter.
///
/// Every line is read first (a `Parse` error names the first bad one); then a board text
/// given twice is a `DuplicateBoard` error, a board text that codes no board an
/// `InvalidBoard` error, and a filter that no board passes `NoMatchingBoards`. Otherwise the
/// result is the average row, tagged with `betsize`, and the boards that passed, in the
/// order of their lines.
pub fn build_data_row_with_boards(lines: &Vec<String>, args: &Args, betsize: Betsize) -> (r: Result<
    (StatRow, Vec<Board>),
    CalcError,
>)
    ensures
        r matches Err(CalcError::Parse(_)) <==> !all_lines_parse(texts(lines@)),
        r matches Err(CalcError::Parse(_)) ==> exists|i: int|
            0 <= i < lines@.len() && line_record(texts(lines@)[i]) is None && forall|j: int|
                0 <= j < i ==> (#[trigger] line_record(texts(lines@)[j])) is Some,
        r matches Err(CalcError::DuplicateBoard(b)) ==> exists|i: int|
            0 <= i < lines@.len() && b@ == board_text_of(texts(lines@)[i]),
        r matches Err(CalcError::DuplicateBoard(_)) <==> all_lines_parse(texts(lines@))
            && has_duplicate_board(texts(lines@)),
        r matches Err(CalcError::InvalidBoard(e)) ==> e.kind@ == "board"@ && exists|i: int|
            0 <= i < lines@.len() && e.input@ == board_text_of(texts(lines@)[i])
                && board_from_text(e.input@) is None,
        r matches Err(CalcError::InvalidBoard(_)) <==> all_lines_parse(texts(lines@))
            && !has_duplicate_board(texts(lines@)) && !all_boards_valid(texts(lines@)),
        r matches Err(CalcError::NoMatchingBoards) <==> all_lines_parse(texts(lines@))
            && !has_duplicate_board(texts(lines@)) && all_boards_valid(texts(lines@)) && kept(
            texts(lines@),
            *args,
        ).len() == 0,
        !(r matches Err(CalcError::SituationMismatch)),
        r matches Ok((row, boards)) ==> {
            &&& kept(texts(lines@), *args).len() > 0
            &&& is_summary(row, texts(lines@), *args, betsize)
            &&& board_views(boards@) == kept(texts(lines@), *args).map_values(
                |l: Seq<char>| cards_of(l),
            )
            &&& forall|i: int| 0 <= i < boards@.len() ==> (#[trigger] boards@[i]).wf()
        },
{
    let ghost ls = texts(lines@);
    let n = lines.len();
    let mut records: Vec<(String, StatRow)> = Vec::new();
    let mut i: usize = 0;
    while i < n
        invariant
            n == lines@.len(),
            ls == texts(lines@),
            i <= n,
            records@.len() == i,
            forall|k: int| 0 <= k < i ==> #[trigger] line_record(ls[k]) == Some((records@[k].0@, records@[k].1)),
            forall|k: int| 0 <= k < i ==> stat_row_bounded(#[trigger] records@[k].1),
        decreases n - i,
    {
        match parse_line(lines[i].as_str()) {
            Ok(rec) => {
                records.push(rec);
            },
            Err(e) => {
                proof {
                    assert(ls[i as int] == lines@[i as int]@);
                    assert(!all_lines_parse(ls));
                    assert(line_record(ls[i as int]) is None);
                    assert(forall|j: int| 0 <= j < i ==> (#[trigger] line_record(ls[j])) is Some);
                }
                return Err(CalcError::Parse(e));
            },
        }
        i = i + 1;
    }
    assert(all_lines_parse(ls));
    proof {
        assert forall|k: int| 0 <= k < n implies board_text_of(ls[k]) == records@[k].0@ && row_of(ls[k]) == records@[k].1 by {
            assert(line_record(ls[k]) == Some((records@[k].0@, records@[k].1)));
        }
    }
    match find_duplicate(&records) {
        Some(j) => {
            proof {
                let i0 = choose|i0: int| 0 <= i0 < j && records@[i0].0@ == records@[j as int].0@;
                assert(board_text_of(ls[i0]) == board_text_of(ls[j as int]));
                assert(has_duplicate_board(ls));
            }
            return Err(CalcError::DuplicateBoard(records[j].0.clone()));
        },
        None => {},
    }
    assert(!has_duplicate_board(ls)) by {
        if has_duplicate_board(ls) {
            let (a, b) = choose|a: int, b: int|
                0 <= a < b < ls.len() && #[trigger] board_text_of(ls[a]) == #[trigger] board_text_of(ls[b]);
            assert(records@[a].0@ != records@[b].0@);
        }
    }
    let mut boards: Vec<Board> = Vec::new();
    let mut i: usize = 0;
    while i < n
        invariant
            n == lines@.len(),
            n == records@.len(),
            ls == texts(lines@),
            i <= n,
            boards@.len() == i,
            all_lines_parse(ls),
            !has_duplicate_board(ls),
            forall|k: int| 0 <= k < n ==> board_text_of(ls[k]) == #[trigger] records@[k].0@,
            forall|k: int| 0 <= k < i ==> (#[trigger] boards@[k]).wf() && board_from_text(board_text_of(ls[k])) == Some(boards@[k].cards@),
        decreases n - i,
    {
        match Board::parse(records[i].0.as_str()) {
            Ok(b) => {
                boards.push(b);
            },
            Err(e) => {
                proof {
                    assert(board_from_text(board_text_of(ls[i as int])) is None);
                    assert(!all_boards_valid(ls));
                }
                return Err(CalcError::InvalidBoard(e));
            },
        }
        i = i + 1;
    }
    assert(all_boards_valid(ls)) by {
        assert forall|k: int| 0 <= k < ls.len() implies (#[trigger] board_from_text(board_text_of(ls[k]))) is Some by {
            assert(boards@[k].wf());
        }
    }
    let mut kept_rows: Vec<StatRow> = Vec::new();
    let mut kept_boards: Vec<Board> = Vec::new();
    let mut i: usize = 0;
    while i < n
        invariant
            n == lines@.len(),
            n == records@.len(),
            n == boards@.len(),
            ls == texts(lines@),
            i <= n,
            all_lines_parse(ls),
            !has_duplicate_board(ls),
            all_boards_valid(ls),
            forall|k: int| 0 <= k < n ==> row_of(ls[k]) == #[trigger] records@[k].1,
            forall|k: int| 0 <= k < n ==> stat_row_bounded(#[trigger] records@[k].1),
            forall|k: int| 0 <= k < n ==> (#[trigger] boards@[k]).wf() && cards_of(ls[k]) == boards@[k].cards@,
            kept_rows@ == kept(ls.subrange(0, i as int), *args).map_values(|l: Seq<char>| row_of(l)),
            board_views(kept_boards@) == kept(ls.subrange(0, i as int), *args).map_values(
                |l: Seq<char>| cards_of(l),
            ),
            forall|k: int| 0 <= k < kept_boards@.len() ==> (#[trigger] kept_boards@[k]).wf(),
            forall|k: int| 0 <= k < kept_rows@.len() ==> stat_row_bounded(#[trigger] kept_rows@[k]),
        decreases n - i,
    {
        let ghost prefix = ls.subrange(0, i as int);
        let ghost next = ls.subrange(0, i + 1);
        proof {
            assert(next.drop_last() =~= prefix);
            assert(next.last() == ls[i as int]);
        }
        if board_matches_conditions(&boards[i], args) {
            let ghost old_rows = kept_rows@;
            let ghost old_kb = kept_boards@;
            kept_rows.push(records[i].1);
            let nb = boards[i].copy();
            kept_boards.push(nb);
            proof {
                assert(kept_boards@ =~= old_kb.push(nb));
                assert(board_views(kept_boards@) =~= board_views(old_kb).push(nb.cards@));
                let kk = kept(prefix, *args);
                assert(kept(next, *args) == kk.push(ls[i as int]));
                assert(kept_rows@ =~= kk.push(ls[i as int]).map_values(|l: Seq<char>| row_of(l)));
                assert(board_views(kept_boards@) =~= kk.push(ls[i as int]).map_values(
                    |l: Seq<char>| cards_of(l),
                ));
            }
        } else {
            proof {
                assert(kept(next, *args) == kept(prefix, *args));
            }
        }
        i = i + 1;
    }
    proof {
        assert(ls.subrange(0, n as int) =~= ls);
    }
    if kept_rows.len() == 0 {
        return Err(CalcError::NoMatchingBoards);
    }
    let avg = build_data_row(&kept_rows);
    let row = StatRow { size: Some(betsize), ..avg };
    proof {
        assert(kept_rows@[0].size is None) by {
            let l = kept(ls, *args)[0];
            assert(kept_rows@[0] == row_of(l));
            lemma_kept_in(ls, *args, 0);
        }
        assert(StatRow { size: None, ..row } == avg);
    }
    Ok((row, kept_boards))
}

/// Summarising lines that all carry the same statistics gives those statistics back,
/// tagged with the bet size.
pub proof fn lemma_summary_of_identical_rows(
    row: StatRow,
    ls: Seq<Seq<char>>,
    args: Args,
    size: Betsize,
    x: StatRow,
)
    requires
        kept(ls, args).len() > 0,
        forall|i: int| 0 <= i < kept(ls, args).len() ==> row_of(#[trigger] kept(ls, args)[i]) == x,
        is_summary(row, ls, args, size),
    ensures
        row == (StatRow { size: Some(size), ..x }),
{
    let rows = kept(ls, args).map_values(|l: Seq<char>| row_of(l));
    assert forall|i: int| 0 <= i < rows.len() implies #[trigger] rows[i] == x by {
        assert(rows[i] == row_of(kept(ls, args)[i]));
    }
    crate::stats::lemma_average_of_identical_rows(rows, x, StatRow { size: None, ..row });
}

proof fn lemma_kept_in(ls: Seq<Seq<char>>, args: Args, k: int)
    requires
        0 <= k < kept(ls, args).len(),
    ensures
        ls.contains(kept(ls, args)[k]),
    decreases ls.len(),
{
    let t = ls.drop_last();
    if ls.len() > 0 {
        if matches_filter(cards_of(ls.last()), args) && k == kept(t, args).len() {
            assert(ls[ls.len() - 1] == ls.last());
        } else {
            lemma_kept_in(t, args, k);
            let j = choose|j: int| 0 <= j < t.len() && t[j] == kept(ls, args)[k];
            assert(ls[j] == t[j]);
        }
    }
}

pub open spec fn summary_succeeds(ls: Seq<Seq<char>>, args: Args) -> bool {
    all_lines_parse(ls) && !has_duplicate_board(ls) && all_boards_valid(ls) && kept(ls, args).len() > 0
}

pub open spec fn kept_cards(ls: Seq<Seq<char>>, args: Args) -> Seq<Seq<Card>> {
    kept(ls, args).map_values(|l: Seq<char>| cards_of(l))
}

/// The two lists hold the same boards, whatever their order and repetitions.
pub open spec fn same_boards(a: Seq<Seq<Card>>, b: Seq<Seq<Card>>) -> bool {
    forall|x: Seq<Card>| a.contains(x) <==> b.contains(x)
}

/// Whether the two lists hold the same boards, whatever their order.
pub fn same_board_set(a: &Vec<Board>, b: &Vec<Board>) -> (r: bool)
    requires
        forall|i: int| 0 <= i < a@.len() ==> (#[trigger] a@[i]).wf(),
        forall|i: int| 0 <= i < b@.len() ==> (#[trigger] b@[i]).wf(),
    ensures
        r == same_boards(board_views(a@), board_views(b@)),
{
    let ab = all_contained(a, b);
    let ba = all_contained(b, a);
    let r = ab && ba;
    proof {
        let va = board_views(a@);
        let vb = board_views(b@);
        if r {
            assert forall|x: Seq<Card>| va.contains(x) <==> vb.contains(x) by {
                if va.contains(x) {
                    let i = choose|i: int| 0 <= i < va.len() && va[i] == x;
                    assert(a@[i].cards@ == x);
                    assert(has_board(b@, a@[i].cards@));
                    let i2 = choose|i2: int| 0 <= i2 < b@.len() && (#[trigger] b@[i2]).cards@ == a@[i].cards@;
                    assert(vb[i2] == x);
                }
                if vb.contains(x) {
                    let i = choose|i: int| 0 <= i < vb.len() && vb[i] == x;
                    assert(b@[i].cards@ == x);
                    assert(has_board(a@, b@[i].cards@));
                    let i2 = choose|i2: int| 0 <= i2 < a@.len() && (#[trigger] a@[i2]).cards@ == b@[i].cards@;
                    assert(va[i2] == x);
                }
            }
        } else if !ab {
            let j = choose|j: int| 0 <= j < a@.len() && !(exists|m: int| 0 <= m < b@.len() && b@[m].cards@ == (#[trigger] a@[j]).cards@);
            assert(va[j] == a@[j].cards@);
            assert(va.contains(va[j]));
            if vb.contains(va[j]) {
                let i = choose|i: int| 0 <= i < vb.len() && vb[i] == va[j];
                assert(b@[i].cards@ == a@[j].cards@);
                assert(has_board(b@, a@[j].cards@));
            }
        } else {
            let j = choose|j: int| 0 <= j < b@.len() && !has_board(a@, (#[trigger] b@[j]).cards@);
            assert(vb[j] == b@[j].cards@);
            assert(vb.contains(vb[j]));
            if va.contains(vb[j]) {
                let i = choose|i: int| 0 <= i < va.len() && va[i] == vb[j];
                assert(a@[i].cards@ == b@[j].cards@);
                assert(has_board(a@, b@[j].cards@));
            }
        }
    }
    r
}

/// Some board of `b` has the cards `x`.
pub open spec fn has_board(b: Seq<Board>, x: Seq<Card>) -> bool {
    exists|m: int| 0 <= m < b.len() && (#[trigger] b[m]).cards@ == x
}

pub open spec fn all_contained_spec(a: Seq<Board>, b: Seq<Board>) -> bool {
    forall|j: int| 0 <= j < a.len() ==> has_board(b, (#[trigger] a[j]).cards@)
}

/// Whether every board of `a` is in `b`.
fn all_contained(a: &Vec<Board>, b: &Vec<Board>) -> (r: bool)
    requires
        forall|i: int| 0 <= i < a@.len() ==> (#[trigger] a@[i]).wf(),
        forall|i: int| 0 <= i < b@.len() ==> (#[trigger] b@[i]).wf(),
    ensures
        r == all_contained_spec(a@, b@),
{
    let mut j: usize = 0;
    while j < a.len()
        invariant
            j <= a@.len(),
            forall|i: int| 0 <= i < a@.len() ==> (#[trigger] a@[i]).wf(),
            forall|i: int| 0 <= i < b@.len() ==> (#[trigger] b@[i]).wf(),
            forall|k: int| 0 <= k < j ==> has_board(b@, (#[trigger] a@[k]).cards@),
        decreases a@.len() - j,
    {
        let mut found = false;
        let mut i: usize = 0;
        while i < b.len() && !found
            invariant
                j < a@.len(),
                i <= b@.len(),
                a@[j as int].wf(),
                forall|k: int| 0 <= k < b@.len() ==> (#[trigger] b@[k]).wf(),
                found ==> has_board(b@, a@[j as int].cards@),
                !found ==> forall|k: int| 0 <= k < i ==> (#[trigger] b@[k]).cards@ != a@[j as int].cards@,
            decreases b@.len() - i,
        {
            found = b[i].same_as(&a[j]);
            i = i + 1;
        }
        if !found {
            return false;
        }
        j = j + 1;
    }
    true
}

/// Summarises every bet size of a situation, `contents[k]` holding the data lines of
/// `args.betsizes[k]`, and checks that all of them were taken over the same boards.
///
/// The first bet size whose summary fails gives the error; boards that differ between two
/// bet sizes give `SituationMismatch`. Otherwise the result is one row per bet size, in
/// their order, and the boards of the first.
#[verifier::rlimit(40)]
pub fn build_data_rows_with_boards(args: &Args, contents: &Vec<Vec<String>>) -> (r: Result<
    (Vec<StatRow>, Vec<Board>),
    CalcError,
>)
    requires
        contents@.len() == args.betsizes@.len(),
    ensures
        r is Ok ==> forall|k: int| 0 <= k < contents@.len() ==> summary_succeeds(
            texts(#[trigger] contents@[k]@),
            *args,
        ),
        (forall|k: int| 0 <= k < contents@.len() ==> summary_succeeds(
            texts(#[trigger] contents@[k]@),
            *args,
        )) ==> (r matches Err(e) ==> e is SituationMismatch),
        r matches Err(CalcError::SituationMismatch) <==> (forall|k: int|
            0 <= k < contents@.len() ==> summary_succeeds(texts(#[trigger] contents@[k]@), *args))
            && exists|k: int|
            0 <= k < contents@.len() && !same_boards(
                kept_cards(texts(#[trigger] contents@[k]@), *args),
                kept_cards(texts(contents@[0]@), *args),
            ),
        r matches Ok((rows, boards)) ==> {
            &&& rows@.len() == contents@.len()
            &&& forall|k: int| 0 <= k < rows@.len() ==> is_summary(
                #[trigger] rows@[k],
                texts(contents@[k]@),
                *args,
                args.betsizes@[k],
            )
            &&& contents@.len() > 0 ==> board_views(boards@) == kept_cards(texts(contents@[0]@), *args)
            &&& contents@.len() == 0 ==> boards@.len() == 0
        },
{
    let n = contents.len();
    let mut rows: Vec<StatRow> = Vec::new();
    let mut first: Vec<Board> = Vec::new();
    let mut same = true;
    let mut k: usize = 0;
    while k < n
        invariant
            n == contents@.len(),
            n == args.betsizes@.len(),
            k <= n,
            rows@.len() == k,
            forall|j: int| 0 <= j < k ==> summary_succeeds(texts(#[trigger] contents@[j]@), *args),
            forall|j: int| 0 <= j < k ==> is_summary(
                #[trigger] rows@[j],
                texts(contents@[j]@),
                *args,
                args.betsizes@[j],
            ),
            k > 0 ==> board_views(first@) == kept_cards(texts(contents@[0]@), *args),
            k == 0 ==> first@.len() == 0,
            forall|i: int| 0 <= i < first@.len() ==> (#[trigger] first@[i]).wf(),
            same == forall|j: int| 0 <= j < k ==> same_boards(
                kept_cards(texts(#[trigger] contents@[j]@), *args),
                kept_cards(texts(contents@[0]@), *args),
            ),
        decreases n - k,
    {
        match build_data_row_with_boards(&contents[k], args, args.betsizes[k]) {
            Ok((row, boards)) => {
                proof {
                    assert(summary_succeeds(texts(contents@[k as int]@), *args));
                }
                let ghost old_rows = rows@;
                rows.push(row);
                if k == 0 {
                    first = boards;
                } else {
                    let s = same_board_set(&boards, &first);
                    same = same && s;
                }
                proof {
                    assert forall|j: int| 0 <= j < k + 1 implies is_summary(
                        #[trigger] rows@[j],
                        texts(contents@[j]@),
                        *args,
                        args.betsizes@[j],
                    ) by {
                        if j < k {
                            assert(rows@[j] == old_rows[j]);
                        }
                    }
                }
            },
            Err(e) => {
                proof {
                    assert(!summary_succeeds(texts(contents@[k as int]@), *args));
                }
                return Err(e);
            },
        }
        k = k + 1;
    }
    if !same {
        return Err(CalcError::SituationMismatch);
    }
    Ok((rows, first))
}

} // verus!
