//! Save-file fixtures for benchmarking: a path whose game is inferred purely
//! from the name of its immediate parent directory.

use vstd::prelude::*;

use crate::game::{spec_game_from_str, Game};

verus! {

/// A benchmark fixture: its path and the game its parent directory names.
#[derive(Debug, Clone)]
pub struct SaveFile {
    pub file_path: String,
    pub detected_game: Game,
}

/// Index of the last separator in `p`, or -1 when there is none.
pub open spec fn spec_rfind_slash(p: Seq<char>) -> int
    decreases p.len(),
{
    if p.len() == 0 {
        -1
    } else if p.last() == '/' {
        p.len() - 1
    } else {
        spec_rfind_slash(p.drop_last())
    }
}

/// The name of the immediate parent directory of the path: the component
/// between the last two separators; nothing when the path has no parent
/// component.
pub open spec fn spec_parent_name(p: Seq<char>) -> Option<Seq<char>> {
    let j = spec_rfind_slash(p);
    if j < 0 {
        None
    } else {
        let parent = p.take(j);
        let k = spec_rfind_slash(parent);
        let name = parent.skip(k + 1);
        if name.len() == 0 {
            None
        } else {
            Some(name)
        }
    }
}

/// The game a path's parent directory names, parsed case-insensitively;
/// nothing when the parent is no recognized game tag.
pub open spec fn spec_detect_game(p: Seq<char>) -> Option<Game> {
    match spec_parent_name(p) {
        None => None,
        Some(name) => spec_game_from_str(name),
    }
}

proof fn lemma_rfind_slash(p: Seq<char>)
    ensures
        -1 <= spec_rfind_slash(p) < p.len(),
        spec_rfind_slash(p) >= 0 ==> p[spec_rfind_slash(p)] == '/',
        forall|j: int| spec_rfind_slash(p) < j < p.len() ==> p[j] != '/',
    decreases p.len(),
{
    if p.len() > 0 && p.last() != '/' {
        lemma_rfind_slash(p.drop_last());
        assert(forall|j: int| 0 <= j < p.len() - 1 ==> p[j] == p.drop_last()[j]);
    }
}

/// Finds the last separator strictly before `end`, as index plus one (0 when
/// there is none).
fn rfind_slash_before(p: &str, end: usize) -> (r: usize)
    requires
        end <= p@.len(),
    ensures
        r as int == spec_rfind_slash(p@.take(end as int)) + 1,
        r <= end,
{
    proof {
        lemma_rfind_slash(p@.take(end as int));
    }
    let mut i: usize = end;
    while i > 0
        invariant
            0 <= i <= end <= p@.len(),
            forall|j: int| i <= j < end ==> p@.take(end as int)[j] != '/',
        decreases i,
    {
        if p.get_char(i - 1) == '/' {
            proof {
                lemma_rfind_slash(p@.take(end as int));
                let t = p@.take(end as int);
                assert(t[i - 1] == '/');
                let f = spec_rfind_slash(t);
                if f < i as int - 1 {
                    assert(t[i - 1] != '/');
                }
                if f > i as int - 1 {
                    assert(t[f] == '/');
                }
            }
            return i;
        }
        i = i - 1;
    }
    proof {
        let t = p@.take(end as int);
        let f = spec_rfind_slash(t);
        if f >= 0 {
            assert(t[f] == '/');
        }
    }
    0
}

/// Infers the game of a fixture from the name of its immediate parent
/// directory; `None` when the path has no parent or the name is no game tag.
pub fn detect_game_from_directory(file_path: &str) -> (r: Option<Game>)
    ensures
        r == spec_detect_game(file_path@),
{
    let n = file_path.unicode_len();
    proof {
        assert(file_path@.take(n as int) =~= file_path@);
    }
    let j1 = rfind_slash_before(file_path, n);
    if j1 == 0 {
        return None;
    }
    let j = j1 - 1;
    // parent = file_path[..j]; its last component is the parent name
    let k1 = rfind_slash_before(file_path, j);
    proof {
        let parent = file_path@.take(j as int);
        let name = parent.skip(spec_rfind_slash(parent) + 1);
        assert(name =~= file_path@.subrange(k1 as int, j as int));
    }
    if k1 == j {
        return None;
    }
    let name = file_path.substring_char(k1, j);
    Game::from_str(name)
}

} // verus!
