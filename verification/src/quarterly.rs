//! The arguments of `cadence record quarterly`, which registers the zine's
//! output as a quarterly cadence record.

use vstd::prelude::*;

use crate::text::{decimal, push_decimal};

verus! {

/// The record's summary line.
pub open spec fn quarterly_summary(returned: nat, from_cadence: nat, from_jsonl: nat) -> Seq<char> {
    "zine output: "@ + decimal(returned) + " moments, "@ + decimal(from_cadence)
        + " from monthly cadence, "@ + decimal(from_jsonl) + " from JSONL"@
}

/// The items of `ids` joined by commas.
pub open spec fn comma_joined(ids: Seq<Seq<char>>) -> Seq<char>
    decreases ids.len(),
{
    if ids.len() == 0 {
        seq![]
    } else if ids.len() == 1 {
        ids[0]
    } else {
        comma_joined(ids.drop_last()) + ","@ + ids.last()
    }
}

/// The arguments after `cadence`: the record's path, summary and metadata,
/// and `--sources` with the comma-joined source ids when that is not empty.
pub open spec fn quarterly_args(
    bundle_path: Seq<char>,
    returned: nat,
    from_cadence: nat,
    from_jsonl: nat,
    source_ids: Seq<Seq<char>>,
) -> Seq<Seq<char>> {
    let base = seq![
        "record"@,
        "quarterly"@,
        "--produced-by"@,
        "zine"@,
        "--path"@,
        bundle_path,
        "--summary"@,
        quarterly_summary(returned, from_cadence, from_jsonl),
        "--meta"@,
        "moment_count="@ + decimal(returned),
        "--meta"@,
        "source_mix="@ + decimal(from_cadence) + "/"@ + decimal(from_jsonl),
    ];
    let sources = comma_joined(source_ids);
    if sources.len() == 0 {
        base
    } else {
        base + seq!["--sources"@, sources]
    }
}

/// Strings taken by their characters.
pub open spec fn string_views(strings: Seq<String>) -> Seq<Seq<char>> {
    strings.map_values(|s: String| s@)
}

/// The source ids joined by commas.
pub fn join_ids(source_ids: &Vec<String>) -> (joined: String)
    ensures
        joined@ == comma_joined(string_views(source_ids@)),
{
    let mut joined = String::new();
    let mut i: usize = 0;
    while i < source_ids.len()
        invariant
            i <= source_ids@.len(),
            joined@ == comma_joined(string_views(source_ids@).take(i as int)),
        decreases source_ids@.len() - i,
    {
        if i > 0 {
            joined.append(",");
        }
        joined.append(source_ids[i].as_str());
        let ghost ids = string_views(source_ids@);
        assert(ids.take(i + 1).drop_last() =~= ids.take(i as int));
        i += 1;
    }
    assert(string_views(source_ids@).take(source_ids@.len() as int) =~= string_views(source_ids@));
    joined
}

/// The arguments of `cadence` that register the zine output at
/// `bundle_path` as a quarterly record: `returned` moments, of which
/// `from_cadence` came from monthly cadence and `from_jsonl` from transcripts,
/// drawn from the monthly records `source_ids`.
pub fn quarterly_record_args(
    bundle_path: &str,
    returned: usize,
    from_cadence: usize,
    from_jsonl: usize,
    source_ids: &Vec<String>,
) -> (args: Vec<String>)
    ensures
        string_views(args@) == quarterly_args(
            bundle_path@,
            returned as nat,
            from_cadence as nat,
            from_jsonl as nat,
            string_views(source_ids@),
        ),
{
    let mut summary = String::from_str("zine output: ");
    push_decimal(&mut summary, returned as u64);
    summary.append(" moments, ");
    push_decimal(&mut summary, from_cadence as u64);
    summary.append(" from monthly cadence, ");
    push_decimal(&mut summary, from_jsonl as u64);
    summary.append(" from JSONL");
    let mut moment_count = String::from_str("moment_count=");
    push_decimal(&mut moment_count, returned as u64);
    let mut source_mix = String::from_str("source_mix=");
    push_decimal(&mut source_mix, from_cadence as u64);
    source_mix.append("/");
    push_decimal(&mut source_mix, from_jsonl as u64);
    let mut args: Vec<String> = Vec::new();
    args.push(String::from_str("record"));
    args.push(String::from_str("quarterly"));
    args.push(String::from_str("--produced-by"));
    args.push(String::from_str("zine"));
    args.push(String::from_str("--path"));
    args.push(String::from_str(bundle_path));
    args.push(String::from_str("--summary"));
    args.push(summary);
    args.push(String::from_str("--meta"));
    args.push(moment_count);
    args.push(String::from_str("--meta"));
    args.push(source_mix);
    let sources = join_ids(source_ids);
    if !sources.as_str().is_empty() {
        args.push(String::from_str("--sources"));
        args.push(sources);
    }
    assert(string_views(args@) =~= quarterly_args(
        bundle_path@,
        returned as nat,
        from_cadence as nat,
        from_jsonl as nat,
        string_views(source_ids@),
    ));
    args
}

/// The first twelve arguments do not depend on the source ids: the path is
/// the bundle path, `moment_count=` gives the number of moments returned and
/// `source_mix=` gives those from monthly cadence, then those from JSONL; the
/// sources follow as `--sources` and the comma-joined ids exactly when the
/// joined ids are not empty.
pub proof fn lemma_quarterly_args_layout(
    bundle_path: Seq<char>,
    returned: nat,
    from_cadence: nat,
    from_jsonl: nat,
    ids: Seq<Seq<char>>,
    other_ids: Seq<Seq<char>>,
)
    ensures
        ({
            let args = quarterly_args(bundle_path, returned, from_cadence, from_jsonl, ids);
            let other = quarterly_args(bundle_path, returned, from_cadence, from_jsonl, other_ids);
            &&& args.len() >= 12
            &&& args.take(12) == other.take(12)
            &&& args[0] == "record"@ && args[1] == "quarterly"@
            &&& args[4] == "--path"@ && args[5] == bundle_path
            &&& args[8] == "--meta"@ && args[9] == "moment_count="@ + decimal(returned)
            &&& args[10] == "--meta"@
            &&& args[11] == "source_mix="@ + decimal(from_cadence) + "/"@ + decimal(from_jsonl)
            &&& (args.len() == 12 <==> comma_joined(ids).len() == 0)
            &&& args.len() == 12 || (args.len() == 14 && args[12] == "--sources"@ && args[13]
                == comma_joined(ids))
        }),
{
    let args = quarterly_args(bundle_path, returned, from_cadence, from_jsonl, ids);
    let other = quarterly_args(bundle_path, returned, from_cadence, from_jsonl, other_ids);
    assert(args.take(12) =~= other.take(12));
}

} // verus!
