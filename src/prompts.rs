//! Static prompt files and the names of files the client writes.
use vstd::prelude::*;
use vstd::string::*;
use crate::order::{dedup_sorted, sort_texts, strictly_sorted_texts};
use crate::text::{chars_of, push_char, string_of, string_of_range, texts};

verus! {

/// The directory holding one `<name>.txt` file per static prompt.
pub struct PromptManager {
    pub prompts_dir: String,
}

/// The name of the prompt a file holds: the file name without its `.txt`
/// extension, when what is left is not empty.
pub open spec fn prompt_stem(file: Seq<char>) -> Option<Seq<char>> {
    if file.len() > 4 && file.subrange(file.len() - 4, file.len() as int) == ".txt"@ {
        Some(file.subrange(0, file.len() - 4))
    } else {
        None
    }
}

impl PromptManager {
    pub fn new(prompts_dir: String) -> (r: PromptManager)
        ensures
            r.prompts_dir == prompts_dir,
    {
        PromptManager { prompts_dir }
    }

    /// The file of the prompt `name`: `<dir>/<name>.txt`.
    pub fn prompt_file(&self, name: &str) -> (r: String)
        ensures
            r@ == self.prompts_dir@ + seq!['/'] + name@ + ".txt"@,
    {
        let mut p = self.prompts_dir.clone();
        push_char(&mut p, '/');
        p.append(name);
        p.append(".txt");
        assert(p@ =~= self.prompts_dir@ + seq!['/'] + name@ + ".txt"@);
        p
    }
}

/// The prompt a directory entry holds, if it is a `.txt` file.
pub fn prompt_name(file: &str) -> (r: Option<String>)
    ensures
        r matches Some(n) ==> prompt_stem(file@) == Some(n@),
        r is None ==> prompt_stem(file@) is None,
{
    proof {
        reveal_strlit(".txt");
    }
    let cs = chars_of(file);
    let n = cs.len();
    if n > 4 && cs[n - 4] == '.' && cs[n - 3] == 't' && cs[n - 2] == 'x' && cs[n - 1] == 't' {
        assert(cs@.subrange(n - 4, n as int) =~= ".txt"@);
        Some(string_of_range(&cs, 0, n - 4))
    } else {
        proof {
            if n > 4 && cs@.subrange(n - 4, n as int) == ".txt"@ {
                assert(cs@.subrange(n - 4, n as int)[0] == '.');
                assert(cs@.subrange(n - 4, n as int)[1] == 't');
                assert(cs@.subrange(n - 4, n as int)[2] == 'x');
                assert(cs@.subrange(n - 4, n as int)[3] == 't');
            }
        }
        None
    }
}

/// Whether a character cannot stand in a file name on common systems.
pub open spec fn unsafe_in_file_name(c: char) -> bool {
    c == ':' || c == '\\' || c == '/' || c == '*' || c == '?' || c == '"' || c == '<' || c == '>' || c == '|'
}

/// `name` with every character that cannot stand in a file name replaced
/// by `_`.
pub fn sanitize_filename(name: &str) -> (r: String)
    ensures
        r@.len() == name@.len(),
        forall|i: int| 0 <= i < name@.len() ==> #[trigger] r@[i] == if unsafe_in_file_name(name@[i]) {
            '_'
        } else {
            name@[i]
        },
{
    let cs = chars_of(name);
    let mut out: Vec<char> = Vec::new();
    let mut i: usize = 0;
    while i < cs.len()
        invariant
            cs@ == name@,
            i <= cs@.len(),
            out@.len() == i,
            forall|j: int| 0 <= j < i ==> #[trigger] out@[j] == if unsafe_in_file_name(cs@[j]) {
                '_'
            } else {
                cs@[j]
            },
        decreases cs@.len() - i,
    {
        let c = cs[i];
        let bad = c == ':' || c == '\\' || c == '/' || c == '*' || c == '?' || c == '"' || c == '<' || c == '>'
            || c == '|';
        out.push(if bad { '_' } else { c });
        i += 1;
    }
    string_of(&out)
}

/// Whether some file of `files` holds the prompt `n`.
pub open spec fn stem_of_some(files: Seq<String>, n: Seq<char>) -> bool {
    exists|j: int| 0 <= j < files.len() && prompt_stem(#[trigger] files[j]@) == Some(n)
}

/// The prompt names among a directory's file names, in lexicographic order,
/// each once.
pub fn prompt_names(files: Vec<String>) -> (r: Vec<String>)
    ensures
        strictly_sorted_texts(texts(r@)),
        forall|i: int| 0 <= i < r@.len() ==> stem_of_some(files@, #[trigger] r@[i]@),
        forall|j: int| 0 <= j < files@.len() && #[trigger] prompt_stem(files@[j]@) is Some
            ==> texts(r@).contains(prompt_stem(files@[j]@)->0),
{
    let mut names: Vec<String> = Vec::new();
    let mut i: usize = 0;
    while i < files.len()
        invariant
            i <= files@.len(),
            forall|k: int| 0 <= k < names@.len() ==> stem_of_some(files@.subrange(0, i as int), #[trigger] names@[k]@),
            forall|j: int| 0 <= j < i && #[trigger] prompt_stem(files@[j]@) is Some
                ==> texts(names@).contains(prompt_stem(files@[j]@)->0),
        decreases files@.len() - i,
    {
        let ghost old_names = names@;
        match prompt_name(files[i].as_str()) {
            Some(n) => {
                names.push(n);
            },
            None => {},
        }
        proof {
            let pre = files@.subrange(0, i as int);
            let post = files@.subrange(0, i + 1);
            assert forall|k: int| 0 <= k < names@.len() implies stem_of_some(post, #[trigger] names@[k]@) by {
                if k < old_names.len() {
                    assert(names@[k] == old_names[k]);
                    assert(stem_of_some(pre, old_names[k]@));
                    let j = choose|j: int| 0 <= j < pre.len() && prompt_stem(#[trigger] pre[j]@) == Some(old_names[k]@);
                    assert(post[j] == pre[j]);
                } else {
                    assert(post[i as int] == files@[i as int]);
                }
            }
            assert forall|j: int| 0 <= j < i + 1 && #[trigger] prompt_stem(files@[j]@) is Some
                implies texts(names@).contains(prompt_stem(files@[j]@)->0) by {
                let n = prompt_stem(files@[j]@)->0;
                if j < i {
                    let m = choose|m: int| 0 <= m < texts(old_names).len() && texts(old_names)[m] == n;
                    assert(texts(names@)[m] == n);
                } else {
                    assert(texts(names@)[names@.len() - 1] == n);
                }
            }
        }
        i += 1;
    }
    let ghost before = names@;
    let sorted = sort_texts(names);
    proof {
        broadcast use vstd::seq_lib::group_to_multiset_ensures;

        assert forall|k: int| 0 <= k < sorted@.len() implies stem_of_some(files@, #[trigger] sorted@[k]@) by {
            assert(texts(sorted@)[k] == sorted@[k]@);
            assert(texts(sorted@).contains(sorted@[k]@));
            assert(texts(sorted@).to_multiset().count(sorted@[k]@) > 0);
            assert(texts(before).contains(sorted@[k]@));
            let m = choose|m: int| 0 <= m < texts(before).len() && texts(before)[m] == sorted@[k]@;
            assert(texts(before)[m] == before[m]@);
            let bm = before[m]@;
            assert(stem_of_some(files@.subrange(0, files@.len() as int), bm));
            assert(files@.subrange(0, files@.len() as int) =~= files@);
        }
        assert forall|j: int| 0 <= j < files@.len() && #[trigger] prompt_stem(files@[j]@) is Some
            implies texts(sorted@).contains(prompt_stem(files@[j]@)->0) by {
            let n = prompt_stem(files@[j]@)->0;
            assert(texts(before).contains(n));
            assert(texts(before).to_multiset().count(n) > 0);
        }
    }
    let r = dedup_sorted(sorted);
    proof {
        assert forall|k: int| 0 <= k < r@.len() implies stem_of_some(files@, #[trigger] r@[k]@) by {
            assert(texts(r@)[k] == r@[k]@);
            assert(texts(r@).contains(r@[k]@));
            let m = choose|m: int| 0 <= m < texts(sorted@).len() && texts(sorted@)[m] == r@[k]@;
            assert(texts(sorted@)[m] == sorted@[m]@);
        }
    }
    r
}

/// Seconds in a day.
pub const DAY_SECONDS: u64 = 86400;

/// Whether a scratch file last modified at `modified_s` (seconds since the
/// epoch) is older than `age_days` days at `now_s`.
pub fn is_expired(modified_s: u64, now_s: u64, age_days: u32) -> (r: bool)
    ensures
        r == (modified_s + age_days as int * DAY_SECONDS < now_s),
{
    let age: u64 = age_days as u64 * DAY_SECONDS;
    if now_s < age {
        return false;
    }
    modified_s < now_s - age
}

} // verus!
