//! A diff as lines of text.
//!
//! The report opens with an empty line. Then comes a section for each
//! collection of the diff that holds anything: its title, a line for each
//! entry in key order, and an empty line. It closes with a line of summary
//! for each of those collections.

use vstd::prelude::*;
use vstd::string::StringExecFns;
use crate::diff::ChecksumSetDiff;
use crate::text::{decimal, decimal_string, string_texts};

verus! {

/// The line for a path with a value on either side.
pub open spec fn mismatch_line(path: Seq<char>, ours: Seq<char>, theirs: Seq<char>) -> Seq<char> {
    path + " == A: "@ + ours + " / B: "@ + theirs
}

/// The line of summary for `n` entries of a collection.
pub open spec fn summary_line(n: nat, what: Seq<char>) -> Seq<char> {
    decimal(n) + what
}

/// The section of a collection with the given lines: nothing where there
/// are none.
pub open spec fn section(title: Seq<char>, lines: Seq<Seq<char>>) -> Seq<Seq<char>> {
    if lines.len() == 0 {
        Seq::<Seq<char>>::empty()
    } else {
        seq![title] + lines + seq![Seq::<char>::empty()]
    }
}

/// The summary of a collection of `n` entries: nothing where there are none.
pub open spec fn summary(n: nat, what: Seq<char>) -> Seq<Seq<char>> {
    if n == 0 {
        Seq::<Seq<char>>::empty()
    } else {
        seq![summary_line(n, what)]
    }
}

/// The lines for paths with a size on either side.
pub open spec fn size_lines(paths: Seq<Seq<char>>, sizes: Seq<(u64, u64)>) -> Seq<Seq<char>> {
    Seq::new(
        paths.len(),
        |i: int| mismatch_line(paths[i], decimal(sizes[i].0 as nat), decimal(sizes[i].1 as nat)),
    )
}

/// The lines for paths with a digest on either side.
pub open spec fn hash_lines(paths: Seq<Seq<char>>, hashes: Seq<(String, String)>) -> Seq<Seq<char>> {
    Seq::new(paths.len(), |i: int| mismatch_line(paths[i], hashes[i].0@, hashes[i].1@))
}

/// Appends the section of a collection to `report`: the title, the lines and
/// an empty line, where there are lines at all.
fn push_section(report: &mut Vec<String>, title: &str, lines: Vec<String>)
    ensures
        string_texts(final(report)@) == string_texts(old(report)@) + section(
            title@,
            string_texts(lines@),
        ),
{
    let ghost before = string_texts(report@);
    let ghost body = string_texts(lines@);
    if lines.len() == 0 {
        proof {
            assert(before + section(title@, body) =~= before);
        }
        return ;
    }
    report.push(title.to_owned());
    let mut lines = lines;
    let n = lines.len();
    let mut i: usize = 0;
    proof {
        assert(string_texts(report@) =~= before + seq![title@] + body.take(0));
    }
    while i < n
        invariant
            n == lines.len(),
            n == body.len(),
            i <= n,
            forall|j: int| i <= j < n ==> #[trigger] lines@[j]@ == body[j],
            string_texts(report@) == before + seq![title@] + body.take(i as int),
        decreases n - i,
    {
        let mut line = String::new();
        proof {
            assert(lines@[i as int]@ == body[i as int]);
        }
        std::mem::swap(&mut line, &mut lines[i]);
        let ghost so_far = string_texts(report@);
        report.push(line);
        proof {
            assert(string_texts(report@) =~= so_far.push(body[i as int]));
            assert(body.take(i + 1) =~= body.take(i as int).push(body[i as int]));
            assert(string_texts(report@) =~= before + seq![title@] + body.take(i + 1));
        }
        i = i + 1;
    }
    let ghost so_far = string_texts(report@);
    report.push(String::new());
    proof {
        assert(body.take(n as int) =~= body);
        assert(string_texts(report@) =~= so_far.push(Seq::<char>::empty()));
        assert(string_texts(report@) =~= before + section(title@, body));
    }
}

/// Appends the line of summary for a collection of `n` entries to `report`,
/// where it has entries at all.
fn push_summary(report: &mut Vec<String>, n: usize, what: &str)
    ensures
        string_texts(final(report)@) == string_texts(old(report)@) + summary(n as nat, what@),
{
    let ghost before = string_texts(report@);
    if n == 0 {
        proof {
            assert(before + summary(n as nat, what@) =~= before);
        }
        return ;
    }
    let line = decimal_string(n as u64).concat(what);
    proof {
        assert(line@ =~= summary_line(n as nat, what@));
    }
    report.push(line);
    proof {
        assert(string_texts(report@) =~= before + summary(n as nat, what@));
    }
}

/// The line for `path` with `ours` and `theirs` on either side.
fn mismatch_line_of(path: &str, ours: &str, theirs: &str) -> (line: String)
    ensures
        line@ == mismatch_line(path@, ours@, theirs@),
{
    path.to_owned().concat(" == A: ").concat(ours).concat(" / B: ").concat(theirs)
}

impl ChecksumSetDiff {
    /// The report of the diff, line by line.
    pub open spec fn report_spec(&self) -> Seq<Seq<char>> {
        seq![Seq::<char>::empty()] + section(
            "-- ADDITIONAL FILES --"@,
            self.additional_files.paths(),
        ) + section("-- MISSING FILES --"@, self.missing_files.paths()) + section(
            "-- DIFFERING SIZES --"@,
            size_lines(self.differing_sizes.keys(), self.differing_sizes.values()),
        ) + section(
            "-- DIFFERING HASHES --"@,
            hash_lines(self.differing_hashes.keys(), self.differing_hashes.values()),
        ) + summary(self.additional_files.paths().len(), " additional files."@) + summary(
            self.missing_files.paths().len(),
            " missing files."@,
        ) + summary(self.differing_sizes.keys().len(), " differing sizes."@) + summary(
            self.differing_hashes.keys().len(),
            " differing hashes."@,
        )
    }

    /// The report of the diff, as the lines to print: after an empty line, a
    /// section for each collection that holds anything, then a line of
    /// summary for each of them.
    pub fn report(&self) -> (lines: Vec<String>)
        ensures
            string_texts(lines@) == self.report_spec(),
    {
        let mut report: Vec<String> = Vec::new();
        report.push(String::new());
        proof {
            assert(string_texts(report@) =~= seq![Seq::<char>::empty()]);
        }

        let mut additional: Vec<String> = Vec::new();
        let mut i: usize = 0;
        while i < self.additional_files.len()
            invariant
                i <= self.additional_files.paths().len(),
                string_texts(additional@) == self.additional_files.paths().take(i as int),
            decreases self.additional_files.paths().len() - i,
        {
            let ghost so_far = string_texts(additional@);
            additional.push(self.additional_files.path_at(i).clone());
            proof {
                let paths = self.additional_files.paths();
                assert(string_texts(additional@) =~= so_far.push(paths[i as int]));
                assert(paths.take(i + 1) =~= paths.take(i as int).push(paths[i as int]));
            }
            i = i + 1;
        }
        proof {
            let paths = self.additional_files.paths();
            assert(paths.take(i as int) =~= paths);
        }
        push_section(&mut report, "-- ADDITIONAL FILES --", additional);

        let mut missing: Vec<String> = Vec::new();
        let mut i: usize = 0;
        while i < self.missing_files.len()
            invariant
                i <= self.missing_files.paths().len(),
                string_texts(missing@) == self.missing_files.paths().take(i as int),
            decreases self.missing_files.paths().len() - i,
        {
            let ghost so_far = string_texts(missing@);
            missing.push(self.missing_files.path_at(i).clone());
            proof {
                let paths = self.missing_files.paths();
                assert(string_texts(missing@) =~= so_far.push(paths[i as int]));
                assert(paths.take(i + 1) =~= paths.take(i as int).push(paths[i as int]));
            }
            i = i + 1;
        }
        proof {
            let paths = self.missing_files.paths();
            assert(paths.take(i as int) =~= paths);
        }
        push_section(&mut report, "-- MISSING FILES --", missing);

        let mut sizes: Vec<String> = Vec::new();
        let size_count = self.differing_sizes.len();
        let mut i: usize = 0;
        while i < size_count
            invariant
                i <= size_count,
                size_count == self.differing_sizes.keys().len(),
                size_count == self.differing_sizes.values().len(),
                string_texts(sizes@) == size_lines(
                    self.differing_sizes.keys(),
                    self.differing_sizes.values(),
                ).take(i as int),
            decreases self.differing_sizes.keys().len() - i,
        {
            let ghost so_far = string_texts(sizes@);
            let path = self.differing_sizes.key_at(i);
            let pair = self.differing_sizes.value_at(i);
            let ours = decimal_string(pair.0);
            let theirs = decimal_string(pair.1);
            sizes.push(mismatch_line_of(path.as_str(), ours.as_str(), theirs.as_str()));
            proof {
                let all = size_lines(self.differing_sizes.keys(), self.differing_sizes.values());
                assert(string_texts(sizes@) =~= so_far.push(all[i as int]));
                assert(all.take(i + 1) =~= all.take(i as int).push(all[i as int]));
            }
            i = i + 1;
        }
        proof {
            let all = size_lines(self.differing_sizes.keys(), self.differing_sizes.values());
            assert(all.take(i as int) =~= all);
        }
        push_section(&mut report, "-- DIFFERING SIZES --", sizes);

        let mut hashes: Vec<String> = Vec::new();
        let hash_count = self.differing_hashes.len();
        let mut i: usize = 0;
        while i < hash_count
            invariant
                i <= hash_count,
                hash_count == self.differing_hashes.keys().len(),
                hash_count == self.differing_hashes.values().len(),
                string_texts(hashes@) == hash_lines(
                    self.differing_hashes.keys(),
                    self.differing_hashes.values(),
                ).take(i as int),
            decreases self.differing_hashes.keys().len() - i,
        {
            let ghost so_far = string_texts(hashes@);
            let path = self.differing_hashes.key_at(i);
            let pair = self.differing_hashes.value_at(i);
            hashes.push(mismatch_line_of(path.as_str(), pair.0.as_str(), pair.1.as_str()));
            proof {
                let all = hash_lines(self.differing_hashes.keys(), self.differing_hashes.values());
                assert(string_texts(hashes@) =~= so_far.push(all[i as int]));
                assert(all.take(i + 1) =~= all.take(i as int).push(all[i as int]));
            }
            i = i + 1;
        }
        proof {
            let all = hash_lines(self.differing_hashes.keys(), self.differing_hashes.values());
            assert(all.take(i as int) =~= all);
        }
        push_section(&mut report, "-- DIFFERING HASHES --", hashes);

        push_summary(&mut report, self.additional_files.len(), " additional files.");
        push_summary(&mut report, self.missing_files.len(), " missing files.");
        push_summary(&mut report, self.differing_sizes.len(), " differing sizes.");
        push_summary(&mut report, self.differing_hashes.len(), " differing hashes.");
        report
    }
}

} // verus!
