//! Video records: the lines of the extraction tool's output, each parsed on
//! its own as a JSON object; lines that do not parse are set aside.
use vstd::prelude::*;
use vstd::string::StringSliceAdditionalSpecFns;

verus! {

/// One video as the extraction tool described it: each key of the JSON object
/// with the compact JSON text of its value, in the order of the keys.
pub struct VideoRecord {
    pub fields: Vec<(String, String)>,
}

/// The key/value-text pairs of a field list.
pub open spec fn fields_view(fields: Seq<(String, String)>) -> Seq<(Seq<char>, Seq<char>)> {
    fields.map_values(|e: (String, String)| (e.0@, e.1@))
}

impl View for VideoRecord {
    type V = Seq<(Seq<char>, Seq<char>)>;

    open spec fn view(&self) -> Seq<(Seq<char>, Seq<char>)> {
        fields_view(self.fields@)
    }
}

/// Each key of the JSON object that the bytes `line` hold, with the compact
/// JSON text of its value, keys in ascending order; `None` where the line is
/// not a JSON object.
pub uninterp spec fn json_object_entries(line: Seq<u8>) -> Option<Seq<(Seq<char>, Seq<char>)>>;

/// Relies on `serde_json::from_slice` into a `serde_json::Map` (an object, or
/// an error for anything else) and on `Value`'s `Display` (compact JSON text).
/// Without the `preserve_order` feature the map walks its keys in order, so
/// the result depends on the bytes alone.
#[verifier::external_body]
fn parse_object_line(line: &[u8]) -> (r: Option<Vec<(String, String)>>)
    ensures
        r is Some <==> json_object_entries(line@) is Some,
        r matches Some(v) ==> fields_view(v@) == json_object_entries(line@)->0,
{
    let object = serde_json::from_slice::<serde_json::Map<String, serde_json::Value>>(line).ok()?;
    let mut fields = Vec::new();
    for (key, value) in object {
        fields.push((key, value.to_string()));
    }
    Some(fields)
}

/// A line without the one carriage return that may end it.
pub open spec fn strip_cr(l: Seq<u8>) -> Seq<u8> {
    if l.len() > 0 && l.last() == 13u8 {
        l.drop_last()
    } else {
        l
    }
}

/// The lines of `b` from index `i` on, where the current line started at
/// `start`: split at each line feed, each line without the one carriage
/// return that may end it (the last line too), and with no empty line after a
/// final line feed.
pub open spec fn lines_from(b: Seq<u8>, i: int, start: int) -> Seq<Seq<u8>>
    decreases b.len() - i,
{
    if i >= b.len() {
        if start < b.len() {
            seq![strip_cr(b.subrange(start, b.len() as int))]
        } else {
            seq![]
        }
    } else if b[i] == 10u8 {
        seq![strip_cr(b.subrange(start, i))] + lines_from(b, i + 1, i + 1)
    } else {
        lines_from(b, i + 1, start)
    }
}

/// The lines of the text whose bytes are `b`.
pub open spec fn lines_of(b: Seq<u8>) -> Seq<Seq<u8>> {
    lines_from(b, 0, 0)
}

pub open spec fn parses(l: Seq<u8>) -> bool {
    json_object_entries(l) is Some
}

/// The records of the lines that parse, in the order of the lines.
pub open spec fn kept_records(ls: Seq<Seq<u8>>) -> Seq<Seq<(Seq<char>, Seq<char>)>>
    decreases ls.len(),
{
    if ls.len() == 0 {
        seq![]
    } else {
        let rest = kept_records(ls.drop_last());
        match json_object_entries(ls.last()) {
            Some(e) => rest.push(e),
            None => rest,
        }
    }
}

/// The positions, counted from zero, of the lines that do not parse.
pub open spec fn rejected_lines(ls: Seq<Seq<u8>>) -> Seq<int>
    decreases ls.len(),
{
    if ls.len() == 0 {
        seq![]
    } else {
        let rest = rejected_lines(ls.drop_last());
        if parses(ls.last()) {
            rest
        } else {
            rest.push(ls.len() - 1)
        }
    }
}

/// What the lines of the tool's output gave.
pub struct ParsedLines {
    /// The records of the lines that parsed, in order.
    pub records: Vec<VideoRecord>,
    /// The positions of the lines that did not parse, each worth a warning.
    pub rejected: Vec<usize>,
}

pub open spec fn records_view(rs: Seq<VideoRecord>) -> Seq<Seq<(Seq<char>, Seq<char>)>> {
    rs.map_values(|r: VideoRecord| r@)
}

proof fn lemma_lines_step(b: Seq<u8>, i: int, start: int, done: Seq<Seq<u8>>)
    requires
        0 <= start <= i < b.len(),
        done + lines_from(b, i, start) == lines_of(b),
    ensures
        b[i] == 10u8 ==> done.push(strip_cr(b.subrange(start, i))) + lines_from(b, i + 1, i + 1)
            == lines_of(b),
        b[i] != 10u8 ==> done + lines_from(b, i + 1, start) == lines_of(b),
{
    if b[i] == 10u8 {
        assert(done.push(strip_cr(b.subrange(start, i))) + lines_from(b, i + 1, i + 1)
            =~= done + (seq![strip_cr(b.subrange(start, i))] + lines_from(b, i + 1, i + 1)));
    }
}

/// The bytes of `b` from `from` up to `to`, without a final carriage return.
fn line_bytes(b: &Vec<u8>, from: usize, to: usize) -> (r: Vec<u8>)
    requires
        from <= to <= b@.len(),
    ensures
        r@ == strip_cr(b@.subrange(from as int, to as int)),
{
    let end = if to > from && b[to - 1] == 13u8 { to - 1 } else { to };
    let mut r: Vec<u8> = Vec::new();
    let mut k: usize = from;
    while k < end
        invariant
            from <= k <= end <= to <= b@.len(),
            r@ == b@.subrange(from as int, k as int),
        decreases end - k,
    {
        r.push(b[k]);
        k = k + 1;
        assert(r@ =~= b@.subrange(from as int, k as int));
    }
    if to > from {
        assert(b@.subrange(from as int, to as int).drop_last() =~= b@.subrange(
            from as int,
            to - 1,
        ));
    }
    assert(r@ =~= strip_cr(b@.subrange(from as int, to as int)));
    r
}

impl ParsedLines {
    /// Takes one more line into account.
    fn take_line(&mut self, line: &[u8], position: usize, Ghost(seen): Ghost<Seq<Seq<u8>>>)
        requires
            records_view(old(self).records@) == kept_records(seen),
            old(self).rejected@.map_values(|p: usize| p as int) == rejected_lines(seen),
            position == seen.len(),
        ensures
            records_view(final(self).records@) == kept_records(seen.push(line@)),
            final(self).rejected@.map_values(|p: usize| p as int) == rejected_lines(
                seen.push(line@),
            ),
    {
        let ghost ls = seen.push(line@);
        assert(ls.drop_last() =~= seen);
        match parse_object_line(line) {
            Some(fields) => {
                let rec = VideoRecord { fields };
                self.records.push(rec);
                assert(records_view(self.records@) =~= records_view(old(self).records@).push(
                    json_object_entries(line@)->0,
                ));
            },
            None => {
                self.rejected.push(position);
                assert(self.rejected@.map_values(|p: usize| p as int) =~= old(
                    self,
                ).rejected@.map_values(|p: usize| p as int).push(seen.len() as int));
            },
        }
    }
}

/// Splits the tool's output into lines and parses each as a JSON object,
/// keeping the records in order and noting each line that did not parse.
pub fn parse_lines(output: &str) -> (r: ParsedLines)
    ensures
        records_view(r.records@) == kept_records(lines_of(output.spec_bytes())),
        r.rejected@.map_values(|p: usize| p as int) == rejected_lines(
            lines_of(output.spec_bytes()),
        ),
{
    let b = output.as_bytes_vec();
    let n = b.len();
    let mut r = ParsedLines { records: Vec::new(), rejected: Vec::new() };
    let ghost mut done: Seq<Seq<u8>> = seq![];
    let mut start: usize = 0;
    let mut i: usize = 0;
    let mut count: usize = 0;
    assert(r.rejected@.map_values(|p: usize| p as int) =~= seq![]);
    assert(records_view(r.records@) =~= seq![]);
    while i < n
        invariant
            n == b@.len(),
            b@ == output.spec_bytes(),
            start <= i <= n,
            count == done.len(),
            count <= i,
            done + lines_from(b@, i as int, start as int) == lines_of(b@),
            records_view(r.records@) == kept_records(done),
            r.rejected@.map_values(|p: usize| p as int) == rejected_lines(done),
        decreases n - i,
    {
        proof {
            lemma_lines_step(b@, i as int, start as int, done);
        }
        if b[i] == 10u8 {
            let line = line_bytes(&b, start, i);
            r.take_line(line.as_slice(), count, Ghost(done));
            proof {
                done = done.push(line@);
            }
            count = count + 1;
            start = i + 1;
        }
        i = i + 1;
    }
    if start < n {
        let line = line_bytes(&b, start, n);
        r.take_line(line.as_slice(), count, Ghost(done));
        proof {
            assert(done + lines_from(b@, n as int, start as int) == done.push(line@));
        }
    } else {
        assert(done + lines_from(b@, n as int, start as int) =~= done);
    }
    r
}

/// The lines that parse, in order.
pub open spec fn good_lines(ls: Seq<Seq<u8>>) -> Seq<Seq<u8>> {
    ls.filter(|l: Seq<u8>| parses(l))
}

/// The lines that do not parse, in order.
pub open spec fn bad_lines(ls: Seq<Seq<u8>>) -> Seq<Seq<u8>> {
    ls.filter(|l: Seq<u8>| !parses(l))
}

pub open spec fn entries_of_lines(ls: Seq<Seq<u8>>) -> Seq<Seq<(Seq<char>, Seq<char>)>> {
    ls.map_values(|l: Seq<u8>| json_object_entries(l)->0)
}

/// Of any sequence of lines, exactly those that parse give records, in their
/// order, and each other line is set aside once: N good lines among M bad
/// ones give N records and M rejections.
pub proof fn lemma_records_are_parsed_lines(ls: Seq<Seq<u8>>)
    ensures
        kept_records(ls) == entries_of_lines(good_lines(ls)),
        rejected_lines(ls).len() == bad_lines(ls).len(),
        kept_records(ls).len() + rejected_lines(ls).len() == ls.len(),
    decreases ls.len(),
{
    if ls.len() == 0 {
        assert(entries_of_lines(good_lines(ls)) =~= seq![]);
    } else {
        let front = ls.drop_last();
        lemma_records_are_parsed_lines(front);
        reveal(Seq::filter);
        assert(good_lines(ls) == (if parses(ls.last()) {
            good_lines(front).push(ls.last())
        } else {
            good_lines(front)
        }));
        assert(bad_lines(ls) == (if !parses(ls.last()) {
            bad_lines(front).push(ls.last())
        } else {
            bad_lines(front)
        }));
        if parses(ls.last()) {
            assert(entries_of_lines(good_lines(front).push(ls.last())) =~= entries_of_lines(
                good_lines(front),
            ).push(json_object_entries(ls.last())->0));
        }
    }
}

/// The tool exited with a failure status; its diagnostic output is kept.
pub struct FetchFailed {
    pub diagnostic: String,
}

/// Decides on the tool's run: a failure status fails the fetch with the tool's
/// diagnostic text; otherwise the lines of its output are parsed.
pub fn fetch_result(succeeded: bool, stdout: &str, stderr: String) -> (r: Result<
    ParsedLines,
    FetchFailed,
>)
    ensures
        !succeeded ==> (r matches Err(e) && e.diagnostic@ == stderr@),
        succeeded ==> (r matches Ok(p) && records_view(p.records@) == kept_records(
            lines_of(stdout.spec_bytes()),
        ) && p.rejected@.map_values(|q: usize| q as int) == rejected_lines(
            lines_of(stdout.spec_bytes()),
        )),
{
    if !succeeded {
        return Err(FetchFailed { diagnostic: stderr });
    }
    Ok(parse_lines(stdout))
}

} // verus!
