//! CSV serialisation of the recorded statistics: a fixed header row, then
//! one row per retained sample, preserving insertion order of names and
//! within-name chronological order. CPU and memory are printed with two
//! decimal places.

use vstd::prelude::*;
use vstd::string::*;
use crate::process::{ProcessInfo, SampleModel};
use crate::text::{dec_rep, digit_char, push_char, push_u64_decimal, digit_to_char};

verus! {

/// A CPU value held in tenths of a percent, printed with two decimal
/// places: the second decimal is always zero.
pub open spec fn cpu_rep(tenths: nat) -> Seq<char> {
    dec_rep(tenths / 10) + seq!['.', digit_char(tenths % 10), '0']
}

/// A value held in hundredths, printed with two decimal places.
pub open spec fn hundredths_rep(h: nat) -> Seq<char> {
    dec_rep(h / 100) + seq!['.', digit_char((h % 100) / 10), digit_char(h % 10)]
}

/// One CSV row: the group's process name, then PID, CPU % and memory (MB),
/// comma-separated and newline-terminated.
pub open spec fn csv_line(name: Seq<char>, s: SampleModel) -> Seq<char> {
    name + seq![','] + dec_rep(s.pid as nat) + seq![','] + cpu_rep(s.cpu_usage_tenths as nat)
        + seq![','] + hundredths_rep(s.memory_mb_hundredths as nat) + seq!['\n']
}

/// The rows of one name's history, chronological order kept.
pub open spec fn csv_lines(name: Seq<char>, samples: Seq<SampleModel>) -> Seq<char>
    decreases samples.len(),
{
    if samples.len() == 0 {
        Seq::empty()
    } else {
        csv_lines(name, samples.drop_last()) + csv_line(name, samples.last())
    }
}

/// The rows of every recorded name, insertion order kept.
pub open spec fn csv_groups(stats: Seq<(Seq<char>, Seq<SampleModel>)>) -> Seq<char>
    decreases stats.len(),
{
    if stats.len() == 0 {
        Seq::empty()
    } else {
        csv_groups(stats.drop_last()) + csv_lines(stats.last().0, stats.last().1)
    }
}

/// The whole export: the fixed header row, then every group's rows.
pub open spec fn csv_of_stats(stats: Seq<(Seq<char>, Seq<SampleModel>)>) -> Seq<char> {
    "Process Name,PID,CPU %,Memory (MB)"@ + seq!['\n'] + csv_groups(stats)
}

fn push_csv_line(out: &mut String, name: &str, sample: &ProcessInfo)
    ensures
        final(out)@ == old(out)@ + csv_line(name@, sample@),
{
    out.append(name);
    push_char(out, ',');
    push_u64_decimal(out, sample.pid);
    push_char(out, ',');
    push_u64_decimal(out, sample.cpu_usage_tenths / 10);
    push_char(out, '.');
    push_char(out, digit_to_char(sample.cpu_usage_tenths % 10));
    push_char(out, '0');
    push_char(out, ',');
    push_u64_decimal(out, sample.memory_mb_hundredths / 100);
    push_char(out, '.');
    push_char(out, digit_to_char((sample.memory_mb_hundredths % 100) / 10));
    push_char(out, digit_to_char(sample.memory_mb_hundredths % 10));
    push_char(out, '\n');
    proof {
        assert(out@ =~= old(out)@ + csv_line(name@, sample@));
    }
}

/// Serialises the recorded statistics: the header row
/// `Process Name,PID,CPU %,Memory (MB)`, then one row per retained sample.
pub fn stats_to_csv(stats: &Vec<(String, Vec<ProcessInfo>)>) -> (r: String)
    ensures
        r@ == csv_of_stats(stats.deep_view()),
{
    let ghost sv = stats.deep_view();
    let mut out = String::new();
    out.append("Process Name,PID,CPU %,Memory (MB)");
    push_char(&mut out, '\n');
    let ghost header = out@;
    proof {
        assert(out@ =~= header + csv_groups(sv.take(0)));
    }
    let mut i: usize = 0;
    while i < stats.len()
        invariant
            i <= stats.len(),
            sv == stats.deep_view(),
            sv.len() == stats.len(),
            header == "Process Name,PID,CPU %,Memory (MB)"@ + seq!['\n'],
            out@ == header + csv_groups(sv.take(i as int)),
        decreases stats.len() - i,
    {
        let group = &stats[i];
        let ghost group_start = out@;
        proof {
            assert(sv[i as int] == (group.0@, group.1.deep_view()));
        }
        let ghost gsamples = group.1.deep_view();
        proof {
            assert(out@ =~= group_start + csv_lines(group.0@, gsamples.take(0)));
        }
        let mut j: usize = 0;
        while j < group.1.len()
            invariant
                j <= group.1.len(),
                gsamples == group.1.deep_view(),
                gsamples.len() == group.1.len(),
                out@ == group_start + csv_lines(group.0@, gsamples.take(j as int)),
            decreases group.1.len() - j,
        {
            push_csv_line(&mut out, group.0.as_str(), &group.1[j]);
            proof {
                assert(gsamples.take(j + 1).drop_last() =~= gsamples.take(j as int));
                assert(gsamples.take(j + 1).last() == gsamples[j as int]);
                assert(gsamples[j as int] == group.1[j as int]@);
                assert(out@ =~= group_start + csv_lines(group.0@, gsamples.take(j + 1)));
            }
            j += 1;
        }
        proof {
            assert(gsamples.take(group.1.len() as int) =~= gsamples);
            assert(sv.take(i + 1).drop_last() =~= sv.take(i as int));
            assert(sv.take(i + 1).last() == sv[i as int]);
            assert(out@ =~= header + csv_groups(sv.take(i + 1)));
        }
        i += 1;
    }
    proof {
        assert(sv.take(stats.len() as int) =~= sv);
        assert(out@ =~= csv_of_stats(sv));
    }
    out
}

} // verus!
