//! What a file of a fixed size holds of the rows that were written to it.

use vstd::prelude::*;
use vstd::arithmetic::div_mod::{
    lemma_fundamental_div_mod, lemma_mod_bound, lemma_small_mod,
};
use super::csv::{CsvWriter, RowPlace};
use super::decimation;
use super::lines::Overflow;

verus! {

/// Bytes with a row written over them at a position within them.
pub open spec fn written_over(bytes: Seq<u8>, at: nat, row: Seq<u8>) -> Seq<u8> {
    if at + row.len() < bytes.len() {
        bytes.take(at as int) + row + bytes.skip((at + row.len()) as int)
    } else {
        bytes.take(at as int) + row
    }
}

/// A file with a header, and the position in it, after some rows: its bytes up to
/// the furthest one that was written. A row that does not fit behind the position
/// goes to the start of the rows.
pub open spec fn file_after(header: Seq<u8>, rows: Seq<Seq<u8>>, total_size: int) -> (Seq<u8>, nat)
    decreases rows.len(),
{
    if rows.len() == 0 {
        (header, header.len())
    } else {
        let (bytes, position) = file_after(header, rows.drop_last(), total_size);
        let row = rows.last();
        let at = if position + row.len() <= total_size {
            position
        } else {
            header.len()
        };
        (written_over(bytes, at, row), at + row.len())
    }
}

/// Whether a writer stands where some rows have taken it, in a file with this header.
pub open spec fn follows(w: CsvWriter, header: Seq<u8>, rows: Seq<Seq<u8>>) -> bool {
    &&& w.header_len == header.len()
    &&& w.position == file_after(header, rows, w.total_size as int).1
    &&& w.file_size == file_after(header, rows, w.total_size as int).0.len()
}

/// A position in a file is behind its header and not behind its end.
proof fn lemma_position(header: Seq<u8>, rows: Seq<Seq<u8>>, total_size: int)
    ensures
        header.len() <= file_after(header, rows, total_size).1,
        file_after(header, rows, total_size).1 <= file_after(header, rows, total_size).0.len(),
    decreases rows.len(),
{
    if rows.len() > 0 {
        lemma_position(header, rows.drop_last(), total_size);
    }
}

/// A writer follows its file from the start and from row to row. A row goes where
/// the file has it, also where it is the first one of a new file, and a row for
/// which there is no room changes nothing. `placed` is `before` with the row placed,
/// and `after` is `placed` with the row written.
pub proof fn law_writer_follows_its_file(
    before: CsvWriter,
    place: RowPlace,
    placed: CsvWriter,
    after: CsvWriter,
    header: Seq<u8>,
    rows: Seq<Seq<u8>>,
    row: Seq<u8>,
)
    requires
        follows(before, header, rows),
        before.takes_row_to(row.len() as int, place, placed),
        placed.goes_behind(row.len() as int, after),
    ensures
        place is Here || place is Start ==> follows(after, header, rows.push(row)),
        place is NewFile ==> follows(after, header, seq![row]),
        place is Full ==> follows(placed, header, rows),
{
    let total_size = before.total_size as int;
    lemma_position(header, rows, total_size);
    assert(rows.push(row).drop_last() =~= rows);
    let (bytes, position) = file_after(header, rows, total_size);
    if place is Here || place is Start {
        let at = placed.position as nat;
        assert(file_after(header, rows.push(row), total_size) == (
            written_over(bytes, at, row),
            at + row.len(),
        ));
    } else if place is NewFile {
        let one = seq![row];
        reveal_with_fuel(file_after, 2);
        assert(one.drop_last() =~= Seq::<Seq<u8>>::empty());
        assert(file_after(header, one, total_size) == (
            written_over(header, header.len(), row),
            header.len() + row.len(),
        ));
    }
}

/// Whether a writer decides where a row goes and is then behind it.
pub open spec fn writes(w: CsvWriter, row: Seq<u8>, after: CsvWriter) -> bool {
    exists|place: RowPlace, placed: CsvWriter|
        #[trigger] w.takes_row_to(row.len() as int, place, placed) && placed.goes_behind(
            row.len() as int,
            after,
        )
}

/// A writer that wraps has all its rows in one file, however many there are, and
/// the length that the file is cut to in the end is that of what it holds.
/// `writers` are the writer at first and behind each row.
pub proof fn law_wrapping_writer_keeps_to_one_file(
    writers: Seq<CsvWriter>,
    header: Seq<u8>,
    rows: Seq<Seq<u8>>,
)
    requires
        writers.len() == rows.len() + 1,
        writers[0].overflow_behavior == Overflow::Wrap,
        writers[0].header_len == header.len(),
        writers[0].position == header.len(),
        writers[0].file_size == header.len(),
        forall|k: int|
            0 <= k < rows.len() ==> writes(writers[k], #[trigger] rows[k], writers[k + 1]),
    ensures
        writers.last().same_settings(writers[0]),
        follows(writers.last(), header, rows),
    decreases rows.len(),
{
    if rows.len() > 0 {
        let before = rows.drop_last();
        assert forall|k: int| 0 <= k < before.len() implies writes(
            writers.drop_last()[k],
            #[trigger] before[k],
            writers.drop_last()[k + 1],
        ) by {
            assert(before[k] == rows[k]);
        }
        law_wrapping_writer_keeps_to_one_file(writers.drop_last(), header, before);
        let w = writers.drop_last().last();
        let row = rows.last();
        assert(writes(w, row, writers.last())) by {
            assert(row == rows[rows.len() - 1]);
        }
        let (place, placed) = choose|place: RowPlace, placed: CsvWriter|
            #[trigger] w.takes_row_to(row.len() as int, place, placed) && placed.goes_behind(
                row.len() as int,
                writers.last(),
            );
        law_writer_follows_its_file(w, place, placed, writers.last(), header, before, row);
        assert(before.push(row) =~= rows);
    }
}

/// The header and all rows, one behind the other.
pub open spec fn in_sequence(header: Seq<u8>, rows: Seq<Seq<u8>>) -> Seq<u8>
    decreases rows.len(),
{
    if rows.len() == 0 {
        header
    } else {
        in_sequence(header, rows.drop_last()) + rows.last()
    }
}

/// A file whose rows all fit holds its header and each of them, in order.
pub proof fn law_rows_that_fit_stay_in_order(
    header: Seq<u8>,
    rows: Seq<Seq<u8>>,
    total_size: int,
)
    requires
        in_sequence(header, rows).len() <= total_size,
    ensures
        file_after(header, rows, total_size) == (
            in_sequence(header, rows),
            in_sequence(header, rows).len(),
        ),
    decreases rows.len(),
{
    if rows.len() > 0 {
        law_rows_that_fit_stay_in_order(header, rows.drop_last(), total_size);
        let before = in_sequence(header, rows.drop_last());
        assert(before.take(before.len() as int) =~= before);
    }
}

/// A file that wraps keeps its header and as many rows as fit behind it, in places
/// of one row each: the last rows that were written, each once. Only older rows are
/// overwritten. `width` is the length of a row, and `places` says how many fit.
pub proof fn law_wrapping_keeps_the_last_rows(
    header: Seq<u8>,
    rows: Seq<Seq<u8>>,
    total_size: int,
    width: nat,
    places: nat,
    i: int,
)
    requires
        width > 0,
        forall|k: int| 0 <= k < rows.len() ==> (#[trigger] rows[k]).len() == width,
        header.len() <= total_size,
        places == (total_size - header.len()) / width as int,
        places >= 1,
        0 <= i < rows.len() <= i + places,
    ensures
        file_after(header, rows, total_size).0.len() == header.len() + width * if rows.len()
            < places {
            rows.len()
        } else {
            places
        },
        file_after(header, rows, total_size).0.take(header.len() as int) == header,
        file_after(header, rows, total_size).0.subrange(
            header.len() + width * (i % places as int),
            header.len() + width * (i % places as int) + width,
        ) == rows[i],
{
    lemma_wrapped(header, rows, total_size, width, places);
    reveal(start);
    let (bytes, position) = file_after(header, rows, total_size);
    assert(bytes.take(header.len() as int) =~= bytes.subrange(0, header.len() as int));
    let place = i as nat % places;
    assert(place == i % places as int);
}

/// The start of a place.
#[verifier::opaque]
spec fn start(header: Seq<u8>, width: nat, place: nat) -> nat {
    header.len() + width * place
}

/// Places follow one another.
proof fn lemma_start(header: Seq<u8>, width: nat, place: nat, other: nat)
    ensures
        start(header, width, 0) == header.len(),
        start(header, width, place + 1) == start(header, width, place) + width,
        place < other ==> start(header, width, place) + width <= start(header, width, other),
        header.len() <= start(header, width, place),
{
    reveal(start);
    assert(width * 0 == 0) by (nonlinear_arith);
    assert(width * (place + 1) == width * place + width) by (nonlinear_arith);
    assert(width * place >= 0) by (nonlinear_arith);
    if place < other {
        assert(width * place + width <= width * other) by (nonlinear_arith)
            requires
                place + 1 <= other,
        ;
    }
}

/// A place is within the size of a file exactly where it is one of those that fit.
proof fn lemma_room(header: Seq<u8>, total_size: int, width: nat, places: nat, place: nat)
    requires
        width > 0,
        header.len() <= total_size,
        places == (total_size - header.len()) / width as int,
    ensures
        start(header, width, place) + width <= total_size <==> place < places,
{
    reveal(start);
    let room = total_size - header.len();
    lemma_fundamental_div_mod(room, width as int);
    lemma_mod_bound(room, width as int);
    lemma_start(header, width, place, places);
    lemma_start(header, width, places, place);
    assert(room == width * places + room % width as int);
}

/// What stands beside a row that is written stays.
proof fn lemma_beside(bytes: Seq<u8>, at: nat, row: Seq<u8>, from: int, to: int)
    requires
        0 <= from <= to <= bytes.len(),
        at <= bytes.len(),
        to <= at || at + row.len() <= from,
    ensures
        written_over(bytes, at, row).subrange(from, to) == bytes.subrange(from, to),
        written_over(bytes, at, row).subrange(at as int, (at + row.len()) as int) == row,
{
    assert(written_over(bytes, at, row).subrange(from, to) =~= bytes.subrange(from, to));
    assert(written_over(bytes, at, row).subrange(at as int, (at + row.len()) as int) =~= row);
}

/// Fewer rows apart than there are places, two rows have places of their own.
proof fn lemma_apart(i: nat, n: nat, places: nat)
    requires
        i < n < i + places,
    ensures
        i % places != n % places,
{
    lemma_fundamental_div_mod(i as int, places as int);
    lemma_fundamental_div_mod(n as int, places as int);
    if i % places == n % places {
        let a = i as int / places as int;
        let b = n as int / places as int;
        assert(false) by (nonlinear_arith)
            requires
                0 < n - i < places,
                n - i == places * b - places * a,
        ;
    }
}

/// Whether a file and the position in it are those behind some rows of one width.
spec fn wrapped(
    header: Seq<u8>,
    rows: Seq<Seq<u8>>,
    width: nat,
    places: nat,
    bytes: Seq<u8>,
    position: nat,
) -> bool {
    &&& bytes.len() == start(
        header,
        width,
        if rows.len() < places {
            rows.len()
        } else {
            places
        },
    )
    &&& position == start(
        header,
        width,
        if rows.len() == 0 {
            0
        } else {
            (rows.len() - 1) as nat % places + 1
        },
    )
    &&& bytes.subrange(0, header.len() as int) == header
    &&& forall|i: nat|
        i < rows.len() <= i + places ==> bytes.subrange(
            start(header, width, #[trigger] (i % places)) as int,
            (start(header, width, i % places) + width) as int,
        ) == rows[i as int]
}

proof fn lemma_wrapped(
    header: Seq<u8>,
    rows: Seq<Seq<u8>>,
    total_size: int,
    width: nat,
    places: nat,
)
    requires
        width > 0,
        forall|k: int| 0 <= k < rows.len() ==> (#[trigger] rows[k]).len() == width,
        header.len() <= total_size,
        places == (total_size - header.len()) / width as int,
        places >= 1,
    ensures
        wrapped(
            header,
            rows,
            width,
            places,
            file_after(header, rows, total_size).0,
            file_after(header, rows, total_size).1,
        ),
    decreases rows.len(),
{
    if rows.len() == 0 {
        lemma_start(header, width, 0, 0);
        assert(header.subrange(0, header.len() as int) =~= header);
    } else {
        let before = rows.drop_last();
        assert forall|k: int| 0 <= k < before.len() implies (#[trigger] before[k]).len()
            == width by {
            assert(before[k] == rows[k]);
        }
        lemma_wrapped(header, before, total_size, width, places);
        let (bytes, position) = file_after(header, before, total_size);
        let last: nat = if before.len() == 0 {
            0
        } else {
            (before.len() - 1) as nat % places + 1
        };
        let slot: nat = before.len() % places;
        lemma_mod_bound(before.len() as int, places as int);
        if before.len() == 0 {
            lemma_small_mod(0, places);
        } else {
            decimation::lemma_next_mod((before.len() - 1) as nat, places);
            lemma_mod_bound((before.len() - 1) as int, places as int);
        }
        lemma_room(header, total_size, width, places, last);
        lemma_start(header, width, 0, 0);
        assert(slot == if last < places {
            last
        } else {
            0
        });
        lemma_one_more(header, before, rows.last(), width, places, bytes, position);
        assert(before.push(rows.last()) =~= rows);
    }
}

/// One more row of the same width goes to the next place.
proof fn lemma_one_more(
    header: Seq<u8>,
    rows: Seq<Seq<u8>>,
    row: Seq<u8>,
    width: nat,
    places: nat,
    bytes: Seq<u8>,
    position: nat,
)
    requires
        places >= 1,
        row.len() == width,
        wrapped(header, rows, width, places, bytes, position),
    ensures
        wrapped(
            header,
            rows.push(row),
            width,
            places,
            written_over(bytes, start(header, width, rows.len() % places), row),
            start(header, width, rows.len() % places) + width,
        ),
{
    let n = rows.len();
    let slot = n % places;
    let at = start(header, width, slot);
    let over = written_over(bytes, at, row);
    let all = rows.push(row);
    lemma_mod_bound(n as int, places as int);
    if n < places {
        lemma_small_mod(n, places);
    }
    let filled: nat = if n < places {
        n
    } else {
        places
    };
    lemma_start(header, width, slot, filled);
    lemma_start(header, width, filled, filled);
    assert(at <= bytes.len());
    lemma_beside(bytes, at, row, 0, header.len() as int);
    assert forall|i: nat| i < all.len() <= i + places implies over.subrange(
        start(header, width, #[trigger] (i % places)) as int,
        (start(header, width, i % places) + width) as int,
    ) == all[i as int] by {
        let other = i % places;
        lemma_mod_bound(i as int, places as int);
        if i < n {
            lemma_apart(i, n, places);
            if n < places {
                lemma_small_mod(i, places);
            }
            lemma_start(header, width, other, filled);
            lemma_start(header, width, other, slot);
            lemma_start(header, width, slot, other);
            let from = start(header, width, other);
            lemma_beside(bytes, at, row, from as int, (from + width) as int);
        }
    }
}

} // verus!
