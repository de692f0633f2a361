//! The derived-name scheme and the plans built from it.
//!
//! The processed-file name is recomputed in three stages (processing,
//! assembly, cleanup); to keep those computations identical, all three go
//! through the single derivation here.

use crate::config::{resolved_output_spec, Config};
use crate::digits::{decimal_digits, decimal_string};
use vstd::prelude::*;

verus! {

/// Name of the processed file derived from an input's 1-based position
/// `i` and its original file name: `p{i}_{name}`.
pub open spec fn processed_name_spec(i: nat, name: Seq<char>) -> Seq<char> {
    seq!['p'] + decimal_digits(i) + seq!['_'] + name
}

/// Derives the processed-file name for position `i` (1-based).
pub fn processed_name(i: u64, name: &str) -> (r: String)
    ensures
        r@ == processed_name_spec(i as nat, name@),
{
    let mut r = String::from_str("p");
    r.append(decimal_string(i).as_str());
    r.append("_");
    r.append(name);
    proof {
        reveal_strlit("p");
        reveal_strlit("_");
        assert(r@ =~= processed_name_spec(i as nat, name@));
    }
    r
}

/// The processed-file names for a whole input list, in input order.
pub open spec fn processed_names_spec(files: Seq<Seq<char>>) -> Seq<Seq<char>> {
    Seq::new(files.len(), |k: int| processed_name_spec((k + 1) as nat, files[k]))
}

/// Derives every processed-file name, in input order.
pub fn processed_names(files: &Vec<String>) -> (r: Vec<String>)
    ensures
        r.deep_view() == processed_names_spec(files.deep_view()),
{
    let mut r: Vec<String> = Vec::new();
    let mut idx: usize = 0;
    while idx < files.len()
        invariant
            idx <= files@.len(),
            r@.len() == idx,
            forall|k: int|
                0 <= k < idx ==> #[trigger] r@[k]@ == processed_name_spec(
                    (k + 1) as nat,
                    files@[k]@,
                ),
        decreases files@.len() - idx,
    {
        let name = processed_name((idx as u64) + 1, files[idx].as_str());
        r.push(name);
        idx = idx + 1;
    }
    proof {
        assert forall|k: int|
            0 <= k < r@.len() implies r.deep_view()[k] == processed_names_spec(
            files.deep_view(),
        )[k] by {
            assert(r.deep_view()[k] == r@[k]@);
            assert(files.deep_view()[k] == files@[k]@);
        }
        assert(r.deep_view() =~= processed_names_spec(files.deep_view()));
    }
    r
}

/// Arguments for the external composition tool: every processed name in
/// input order, then the resolved output name as the final argument.
pub open spec fn convert_args_spec(files: Seq<Seq<char>>, output: Seq<char>) -> Seq<Seq<char>> {
    processed_names_spec(files).push(output)
}

/// Builds the composition tool's argument list for a configuration.
pub fn convert_args(cfg: &Config) -> (r: Vec<String>)
    ensures
        r.deep_view() == convert_args_spec(
            cfg.files.deep_view(),
            resolved_output_spec(cfg.output.deep_view()),
        ),
{
    let mut r = processed_names(&cfg.files);
    r.push(cfg.resolve_output());
    proof {
        assert(r.deep_view() =~= convert_args_spec(
            cfg.files.deep_view(),
            resolved_output_spec(cfg.output.deep_view()),
        ));
    }
    r
}

/// The paths that cleanup deletes, in deletion order: the originals first
/// (when the combined or the original-only flag asks for them), then the
/// processed files (when the combined or the processed-only flag does).
pub open spec fn deletion_plan_spec(
    files: Seq<Seq<char>>,
    delete_images: bool,
    delete_original: bool,
    delete_processed: bool,
) -> Seq<Seq<char>> {
    let originals = if delete_images || delete_original {
        files
    } else {
        Seq::<Seq<char>>::empty()
    };
    let processed = if delete_images || delete_processed {
        processed_names_spec(files)
    } else {
        Seq::<Seq<char>>::empty()
    };
    originals + processed
}

/// Lists the paths that cleanup must delete, in order.
pub fn deletion_plan(cfg: &Config) -> (r: Vec<String>)
    ensures
        r.deep_view() == deletion_plan_spec(
            cfg.files.deep_view(),
            cfg.delete_images,
            cfg.delete_original,
            cfg.delete_processed,
        ),
{
    let mut r: Vec<String> = Vec::new();
    if cfg.delete_images || cfg.delete_original {
        let mut idx: usize = 0;
        while idx < cfg.files.len()
            invariant
                idx <= cfg.files@.len(),
                r@.len() == idx,
                forall|k: int| 0 <= k < idx ==> #[trigger] r@[k]@ == cfg.files@[k]@,
            decreases cfg.files@.len() - idx,
        {
            r.push(cfg.files[idx].clone());
            idx = idx + 1;
        }
    }
    if cfg.delete_images || cfg.delete_processed {
        let mut processed = processed_names(&cfg.files);
        r.append(&mut processed);
    }
    proof {
        let goal = deletion_plan_spec(
            cfg.files.deep_view(),
            cfg.delete_images,
            cfg.delete_original,
            cfg.delete_processed,
        );
        assert forall|k: int| 0 <= k < r@.len() implies r.deep_view()[k] == goal[k] by {
            assert(r.deep_view()[k] == r@[k]@);
            if k < cfg.files@.len() && (cfg.delete_images || cfg.delete_original) {
                assert(cfg.files.deep_view()[k] == cfg.files@[k]@);
            }
        }
        assert(r.deep_view() =~= goal);
    }
    r
}

/// Law: processing derives exactly one new name per input, and the name
/// for the input at 0-based position `k` is `p{k+1}_{name}`.
pub proof fn lemma_processed_names_shape(files: Seq<Seq<char>>)
    ensures
        processed_names_spec(files).len() == files.len(),
        forall|k: int|
            0 <= k < files.len() ==> #[trigger] processed_names_spec(files)[k]
                == processed_name_spec((k + 1) as nat, files[k]),
{
}

/// Law: the composition tool is invoked on the processed names in exactly
/// the input order, with the output name as the final argument.
pub proof fn lemma_convert_args_order(files: Seq<Seq<char>>, output: Seq<char>)
    ensures
        convert_args_spec(files, output).len() == files.len() + 1,
        forall|k: int|
            0 <= k < files.len() ==> #[trigger] convert_args_spec(files, output)[k]
                == processed_name_spec((k + 1) as nat, files[k]),
        convert_args_spec(files, output)[files.len() as int] == output,
{
}

/// Where each part of `p{i}_{name}` sits in the derived name.
proof fn lemma_processed_name_index(i: nat, a: Seq<char>)
    ensures
        processed_name_spec(i, a).len() == 2 + decimal_digits(i).len() + a.len(),
        processed_name_spec(i, a)[0] == 'p',
        forall|k: int|
            1 <= k < 1 + decimal_digits(i).len() ==> #[trigger] processed_name_spec(i, a)[k]
                == decimal_digits(i)[k - 1],
        processed_name_spec(i, a)[1 + decimal_digits(i).len() as int] == '_',
        forall|k: int|
            2 + decimal_digits(i).len() <= k < processed_name_spec(i, a).len()
                ==> #[trigger] processed_name_spec(i, a)[k] == a[k - 2 - decimal_digits(i).len()],
{
}

/// Law: the derived-name scheme is injective: equal derived names can only
/// come from the same position and the same original name. (The decimal
/// part holds no underscore, so the first underscore splits the name
/// unambiguously, and decimal notation names each position uniquely.)
pub proof fn lemma_processed_name_injective(i: nat, a: Seq<char>, j: nat, b: Seq<char>)
    requires
        processed_name_spec(i, a) == processed_name_spec(j, b),
    ensures
        i == j,
        a == b,
{
    let di = decimal_digits(i);
    let dj = decimal_digits(j);
    let s = processed_name_spec(i, a);
    let t = processed_name_spec(j, b);
    crate::digits::lemma_decimal_digits_are_digits(i);
    crate::digits::lemma_decimal_digits_are_digits(j);
    lemma_processed_name_index(i, a);
    lemma_processed_name_index(j, b);
    if di.len() < dj.len() {
        let pos = 1 + di.len() as int;
        assert(s[pos] == '_');
        assert(t[pos] == dj[pos - 1]);
        assert(crate::digits::is_digit_char(dj[pos - 1]));
        assert(false);
    }
    if dj.len() < di.len() {
        let pos = 1 + dj.len() as int;
        assert(t[pos] == '_');
        assert(s[pos] == di[pos - 1]);
        assert(crate::digits::is_digit_char(di[pos - 1]));
        assert(false);
    }
    assert forall|k: int| 0 <= k < di.len() implies di[k] == dj[k] by {
        assert(s[k + 1] == di[k]);
        assert(t[k + 1] == dj[k]);
    }
    assert(di =~= dj);
    crate::digits::lemma_decimal_digits_injective(i, j);
    assert(a.len() == b.len());
    assert forall|k: int| 0 <= k < a.len() implies a[k] == b[k] by {
        assert(s[2 + di.len() + k] == a[k]);
        assert(t[2 + dj.len() + k] == b[k]);
    }
    assert(a =~= b);
}

/// Law: derived names never collide with one another: distinct positions
/// give distinct processed names, even for repeated input names, so
/// processing writes exactly one new file per input.
pub proof fn lemma_processed_names_distinct(files: Seq<Seq<char>>)
    ensures
        forall|k1: int, k2: int|
            0 <= k1 < files.len() && 0 <= k2 < files.len() && k1 != k2
                ==> #[trigger] processed_names_spec(files)[k1] != #[trigger] processed_names_spec(
                files,
            )[k2],
{
    assert forall|k1: int, k2: int|
        0 <= k1 < files.len() && 0 <= k2 < files.len() && k1 != k2 implies #[trigger] processed_names_spec(
        files,
    )[k1] != #[trigger] processed_names_spec(files)[k2] by {
        if processed_names_spec(files)[k1] == processed_names_spec(files)[k2] {
            lemma_processed_name_injective(
                (k1 + 1) as nat,
                files[k1],
                (k2 + 1) as nat,
                files[k2],
            );
        }
    }
}

/// Law: with the combined flag set, the deletion plan holds every original
/// path and every derived processed name, whatever the two single-purpose
/// flags say.
pub proof fn lemma_combined_flag_deletes_both(
    files: Seq<Seq<char>>,
    delete_original: bool,
    delete_processed: bool,
)
    ensures
        forall|k: int|
            0 <= k < files.len() ==> deletion_plan_spec(
                files,
                true,
                delete_original,
                delete_processed,
            ).contains(#[trigger] files[k]),
        forall|k: int|
            0 <= k < files.len() ==> deletion_plan_spec(
                files,
                true,
                delete_original,
                delete_processed,
            ).contains(#[trigger] processed_name_spec((k + 1) as nat, files[k])),
{
    let plan = deletion_plan_spec(files, true, delete_original, delete_processed);
    assert forall|k: int| 0 <= k < files.len() implies plan.contains(#[trigger] files[k]) by {
        assert(plan[k] == files[k]);
    }
    assert forall|k: int|
        0 <= k < files.len() implies plan.contains(
        #[trigger] processed_name_spec((k + 1) as nat, files[k]),
    ) by {
        assert(plan[files.len() + k] == processed_name_spec((k + 1) as nat, files[k]));
    }
}

/// Law: with only the original-only flag set, cleanup deletes exactly the
/// original paths; any name not among the inputs, the derived names
/// included, is left intact.
pub proof fn lemma_original_only_plan(files: Seq<Seq<char>>)
    ensures
        deletion_plan_spec(files, false, true, false) == files,
        forall|s: Seq<char>|
            !files.contains(s) ==> !deletion_plan_spec(files, false, true, false).contains(s),
{
    assert(deletion_plan_spec(files, false, true, false) =~= files);
}

/// Law: with only the processed-only flag set, cleanup deletes exactly the
/// derived processed names; any name not among them, the original paths
/// included, is left intact.
pub proof fn lemma_processed_only_plan(files: Seq<Seq<char>>)
    ensures
        deletion_plan_spec(files, false, false, true) == processed_names_spec(files),
        forall|s: Seq<char>|
            !processed_names_spec(files).contains(s) ==> !deletion_plan_spec(
                files,
                false,
                false,
                true,
            ).contains(s),
{
    assert(deletion_plan_spec(files, false, false, true) =~= processed_names_spec(files));
}

/// Law: with no deletion flag set, cleanup deletes nothing.
pub proof fn lemma_no_flags_empty_plan(files: Seq<Seq<char>>)
    ensures
        deletion_plan_spec(files, false, false, false) == Seq::<Seq<char>>::empty(),
{
    assert(deletion_plan_spec(files, false, false, false) =~= Seq::<Seq<char>>::empty());
}

} // verus!
