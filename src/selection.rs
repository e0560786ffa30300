//! Reading which models the user picked at start-up, such as `1` for a chat
//! or `1,3` for one answer from each of several models.
use vstd::prelude::*;
use crate::number::{parse_usize, usize_value};
use vstd::string::*;
use crate::order::{dedup_sorted, sort_texts, strictly_sorted_texts};
use crate::text::{chars_of, push_char, same_text, string_of_range, texts, trim, trimmed};

verus! {

/// The `,`-separated fields of `s` read so far: those closed by a comma, and
/// the one still open.
pub open spec fn scan_fields(s: Seq<char>) -> (Seq<Seq<char>>, Seq<char>)
    decreases s.len(),
{
    if s.len() == 0 {
        (Seq::empty(), Seq::empty())
    } else {
        let (done, open) = scan_fields(s.drop_last());
        if s.last() == ',' {
            (done.push(open), Seq::empty())
        } else {
            (done, open.push(s.last()))
        }
    }
}

/// The `,`-separated fields of `s`, as `str::split(',')` yields them.
pub open spec fn comma_fields(s: Seq<char>) -> Seq<Seq<char>> {
    let (done, open) = scan_fields(s);
    done.push(open)
}

/// The 0-based model indices the fields name, in order: each field, trimmed,
/// must be a number from 1 to `count`; other fields are skipped.
pub open spec fn picked(fields: Seq<Seq<char>>, count: nat) -> Seq<usize>
    decreases fields.len(),
{
    if fields.len() == 0 {
        Seq::empty()
    } else {
        let rest = picked(fields.drop_last(), count);
        match usize_value(trimmed(fields.last())) {
            Some(v) => if 1 <= v <= count {
                rest.push((v - 1) as usize)
            } else {
                rest
            },
            None => rest,
        }
    }
}

/// The models picked in `input`, as 0-based indices below `count`, in the
/// order typed.
pub fn parse_model_selection(input: &str, count: usize) -> (r: Vec<usize>)
    ensures
        r@ == picked(comma_fields(trimmed(input@)), count as nat),
{
    let t = trim(input);
    let cs = chars_of(t.as_str());
    let n = cs.len();
    let mut out: Vec<usize> = Vec::new();
    let mut start: usize = 0;
    let mut i: usize = 0;
    let ghost done: Seq<Seq<char>> = Seq::empty();
    while i < n
        invariant
            n == cs@.len(),
            cs@ == trimmed(input@),
            start <= i <= n,
            scan_fields(cs@.subrange(0, i as int)) == (done, cs@.subrange(start as int, i as int)),
            out@ == picked(done, count as nat),
        decreases n - i,
    {
        assert(cs@.subrange(0, i + 1).drop_last() =~= cs@.subrange(0, i as int));
        if cs[i] == ',' {
            let field = string_of_range(&cs, start, i);
            let f = trim(field.as_str());
            proof {
                assert(done.push(field@).drop_last() =~= done);
            }
            match parse_usize(f.as_str()) {
                Some(v) => {
                    if 1 <= v && v <= count {
                        out.push(v - 1);
                    }
                },
                None => {},
            }
            proof {
                done = done.push(field@);
            }
            start = i + 1;
            assert(cs@.subrange(start as int, i + 1) =~= Seq::<char>::empty());
        } else {
            assert(cs@.subrange(start as int, i + 1) =~= cs@.subrange(start as int, i as int).push(cs@[i as int]));
        }
        i += 1;
    }
    assert(cs@.subrange(0, n as int) =~= cs@);
    let field = string_of_range(&cs, start, n);
    let f = trim(field.as_str());
    proof {
        assert(done.push(field@).drop_last() =~= done);
    }
    match parse_usize(f.as_str()) {
        Some(v) => {
            if 1 <= v && v <= count {
                out.push(v - 1);
            }
        },
        None => {},
    }
    out
}

/// `v`'s values once each, in increasing order, as sorting and removing
/// repeats leaves them.
pub fn unique_sorted(v: &Vec<usize>) -> (r: Vec<usize>)
    ensures
        forall|a: int, b: int| 0 <= a < b < r@.len() ==> #[trigger] r@[a] < #[trigger] r@[b],
        forall|x: usize| r@.contains(x) <==> v@.contains(x),
{
    let mut out: Vec<usize> = Vec::new();
    let mut i: usize = 0;
    while i < v.len()
        invariant
            i <= v@.len(),
            forall|a: int, b: int| 0 <= a < b < out@.len() ==> #[trigger] out@[a] < #[trigger] out@[b],
            forall|x: usize| out@.contains(x) <==> v@.subrange(0, i as int).contains(x),
        decreases v@.len() - i,
    {
        let x = v[i];
        let mut p: usize = 0;
        while p < out.len() && out[p] < x
            invariant
                p <= out@.len(),
                forall|j: int| 0 <= j < p ==> #[trigger] out@[j] < x,
            decreases out@.len() - p,
        {
            p += 1;
        }
        let ghost before = out@;
        if p == out.len() || out[p] != x {
            out.insert(p, x);
            proof {
                assert forall|a: int, b: int| 0 <= a < b < out@.len() implies #[trigger] out@[a] < #[trigger] out@[b] by {
                    if b == p {
                        assert(out@[a] == before[a]);
                    } else if a == p {
                        assert(out@[b] == before[b - 1]);
                        if b - 1 > p {
                            assert(before[p as int] < before[b - 1]);
                        }
                    } else {
                        let a0 = if a < p { a } else { a - 1 };
                        let b0 = if b < p { b } else { b - 1 };
                        assert(out@[a] == before[a0] && out@[b] == before[b0]);
                    }
                }
            }
        }
        proof {
            assert(v@.subrange(0, i + 1) =~= v@.subrange(0, i as int).push(x));
            assert forall|y: usize| out@.contains(y) <==> v@.subrange(0, i + 1).contains(y) by {
                if out@.contains(y) {
                    let k = choose|k: int| 0 <= k < out@.len() && #[trigger] out@[k] == y;
                    if y != x {
                        let k0 = if k < p || before.len() == out@.len() { k } else { k - 1 };
                        assert(before[k0] == y);
                        assert(before.contains(y));
                    }
                    assert(v@.subrange(0, i + 1).push(x).len() > 0);
                    if y == x {
                        assert(v@.subrange(0, i + 1)[i as int] == x);
                    } else {
                        let m = choose|m: int| 0 <= m < i && #[trigger] v@.subrange(0, i as int)[m] == y;
                        assert(v@.subrange(0, i + 1)[m] == y);
                    }
                }
                if v@.subrange(0, i + 1).contains(y) {
                    let m = choose|m: int| 0 <= m < i + 1 && #[trigger] v@.subrange(0, i + 1)[m] == y;
                    if m < i {
                        assert(v@.subrange(0, i as int)[m] == y);
                        assert(before.contains(y));
                        let k = choose|k: int| 0 <= k < before.len() && #[trigger] before[k] == y;
                        if before.len() == out@.len() {
                            assert(out@[k] == y);
                        } else {
                            let k2 = if k < p { k } else { k + 1 };
                            assert(out@[k2] == y);
                        }
                    } else {
                        if before.len() == out@.len() {
                            assert(out@[p as int] == x);
                        } else {
                            assert(out@[p as int] == x);
                        }
                    }
                }
            }
        }
        i += 1;
    }
    assert(v@.subrange(0, v@.len() as int) =~= v@);
    out
}

/// One model's section of the combined results of a multi-model run.
pub open spec fn result_section(model: Seq<char>, response: Seq<char>) -> Seq<char> {
    "# "@ + model + seq!['\n', '\n'] + response + seq!['\n']
}

/// Adds one model's answer to the combined results, after a separator when
/// there are earlier answers.
pub fn append_model_result(results: &mut String, model: &str, response: &str)
    ensures
        final(results)@ == old(results)@ + (if old(results)@.len() > 0 {
            "\n---\n\n"@
        } else {
            Seq::empty()
        }) + result_section(model@, response@),
{
    let ghost start = results@;
    if results.as_str().unicode_len() > 0 {
        results.append("\n---\n\n");
    }
    let ghost sep = results@;
    results.append("# ");
    results.append(model);
    push_char(results, '\n');
    push_char(results, '\n');
    results.append(response);
    push_char(results, '\n');
    assert(results@ =~= sep + result_section(model@, response@));
    proof {
        if start.len() == 0 {
            assert(sep =~= start + Seq::<char>::empty());
        }
    }
}

/// The model a weights file in the models directory stands for: the file
/// name without its `.gguf` extension, when what is left is not empty.
pub open spec fn gguf_stem(file: Seq<char>) -> Option<Seq<char>> {
    if file.len() > 5 && file.subrange(file.len() - 5, file.len() as int) == ".gguf"@ {
        Some(file.subrange(0, file.len() - 5))
    } else {
        None
    }
}

fn gguf_name(file: &str) -> (r: Option<String>)
    ensures
        r matches Some(n) ==> gguf_stem(file@) == Some(n@),
        r is None ==> gguf_stem(file@) is None,
{
    proof {
        reveal_strlit(".gguf");
    }
    let cs = chars_of(file);
    let n = cs.len();
    if n > 5 && cs[n - 5] == '.' && cs[n - 4] == 'g' && cs[n - 3] == 'g' && cs[n - 2] == 'u' && cs[n - 1] == 'f' {
        assert(cs@.subrange(n - 5, n as int) =~= ".gguf"@);
        Some(string_of_range(&cs, 0, n - 5))
    } else {
        proof {
            if n > 5 && cs@.subrange(n - 5, n as int) == ".gguf"@ {
                let t = cs@.subrange(n - 5, n as int);
                assert(t[0] == '.' && t[1] == 'g' && t[2] == 'g' && t[3] == 'u' && t[4] == 'f');
            }
        }
        None
    }
}

fn holds_text(v: &Vec<String>, x: &str) -> (r: bool)
    ensures
        r == texts(v@).contains(x@),
{
    let mut i: usize = 0;
    while i < v.len()
        invariant
            i <= v@.len(),
            forall|j: int| 0 <= j < i ==> #[trigger] v@[j]@ != x@,
        decreases v@.len() - i,
    {
        if same_text(v[i].as_str(), x) {
            assert(texts(v@)[i as int] == x@);
            return true;
        }
        i += 1;
    }
    proof {
        if texts(v@).contains(x@) {
            let j = choose|j: int| 0 <= j < texts(v@).len() && texts(v@)[j] == x@;
            assert(v@[j]@ == x@);
        }
    }
    false
}

/// Whether one of the first `n` files is the weights file of model `k`.
pub open spec fn in_files(files: Seq<String>, n: int, k: Seq<char>) -> bool {
    exists|j: int| 0 <= j < n && gguf_stem(#[trigger] files[j]@) == Some(k)
}

/// The models offered at start-up, in lexicographic order: the registered
/// names, and the `.gguf` files of the models directory under their names
/// without extension, each name once.
pub fn available_models(registered: Vec<String>, files: &Vec<String>) -> (r: Vec<String>)
    ensures
        strictly_sorted_texts(texts(r@)),
        forall|k: Seq<char>| #[trigger] texts(r@).contains(k) <==> (texts(registered@).contains(k) || in_files(
            files@,
            files@.len() as int,
            k,
        )),
{
    broadcast use vstd::seq_lib::group_to_multiset_ensures;

    let mut models = registered;
    let ghost reg = texts(models@);
    let mut i: usize = 0;
    while i < files.len()
        invariant
            i <= files@.len(),
            forall|k: Seq<char>| #[trigger] texts(models@).contains(k) <==> (reg.contains(k) || in_files(files@, i as int, k)),
        decreases files@.len() - i,
    {
        let ghost before = texts(models@);
        let ghost fi = files@[i as int]@;
        match gguf_name(files[i].as_str()) {
            Some(name) => {
                if !holds_text(&models, name.as_str()) {
                    let ghost nv = name@;
                    models.push(name);
                    proof {
                        let after = texts(models@);
                        assert(after =~= before.push(nv));
                        assert forall|k: Seq<char>| #[trigger] after.contains(k) <==> (before.contains(k) || gguf_stem(fi) == Some(k)) by {
                            if after.contains(k) {
                                let m = choose|m: int| 0 <= m < after.len() && after[m] == k;
                                if m < before.len() {
                                    assert(before[m] == k);
                                }
                            }
                            if before.contains(k) {
                                let m = choose|m: int| 0 <= m < before.len() && before[m] == k;
                                assert(after[m] == k);
                            }
                            if gguf_stem(fi) == Some(k) {
                                assert(after[before.len() as int] == k);
                            }
                        }
                    }
                } else {
                    assert(texts(models@) == before);
                }
            },
            None => {},
        }
        proof {
            let after = texts(models@);
            assert forall|k: Seq<char>| #[trigger] after.contains(k) <==> (reg.contains(k) || in_files(files@, i + 1, k)) by {
                assert(before.contains(k) <==> (reg.contains(k) || in_files(files@, i as int, k)));
                assert(after.contains(k) <==> (before.contains(k) || gguf_stem(fi) == Some(k)));
                if in_files(files@, i + 1, k) {
                    let j = choose|j: int| 0 <= j < i + 1 && gguf_stem(#[trigger] files@[j]@) == Some(k);
                    if j < i {
                        assert(in_files(files@, i as int, k));
                    }
                }
                if in_files(files@, i as int, k) {
                    let j = choose|j: int| 0 <= j < i && gguf_stem(#[trigger] files@[j]@) == Some(k);
                    assert(0 <= j < i + 1 && gguf_stem(files@[j]@) == Some(k));
                }
                if gguf_stem(fi) == Some(k) {
                    assert(gguf_stem(files@[i as int]@) == Some(k));
                }
            }
        }
        i += 1;
    }
    let ghost all = texts(models@);
    let sorted = sort_texts(models);
    proof {
        assert forall|k: Seq<char>| #[trigger] texts(sorted@).contains(k) <==> all.contains(k) by {
            assert(texts(sorted@).to_multiset().count(k) == all.to_multiset().count(k));
        }
    }
    dedup_sorted(sorted)
}

} // verus!
