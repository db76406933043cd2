//! Greedy word-wrapping of the level descriptions.

use vstd::prelude::*;

verus! {

/// Unicode `White_Space`, the set that `char::is_whitespace` documents.
pub open spec fn is_white_space(c: char) -> bool {
    let u = c as u32;
    ||| 0x9 <= u <= 0xD
    ||| u == 0x20
    ||| u == 0x85
    ||| u == 0xA0
    ||| u == 0x1680
    ||| 0x2000 <= u <= 0x200A
    ||| u == 0x2028
    ||| u == 0x2029
    ||| u == 0x202F
    ||| u == 0x205F
    ||| u == 0x3000
}

/// Whether `c` is Unicode white space.
pub fn is_white_space_char(c: char) -> (b: bool)
    ensures
        b == is_white_space(c),
{
    let u = c as u32;
    (0x9 <= u && u <= 0xD) || u == 0x20 || u == 0x85 || u == 0xA0 || u == 0x1680 || (0x2000 <= u
        && u <= 0x200A) || u == 0x2028 || u == 0x2029 || u == 0x202F || u == 0x205F || u == 0x3000
}

/// The words of `s`: its maximal runs of non-white-space characters, in order.
pub open spec fn words(s: Seq<char>) -> Seq<Seq<char>>
    decreases s.len(),
{
    if s.len() == 0 {
        seq![]
    } else {
        let rest = words(s.drop_last());
        let c = s.last();
        if is_white_space(c) {
            rest
        } else if s.len() >= 2 && !is_white_space(s[s.len() - 2]) {
            rest.drop_last().push(rest.last().push(c))
        } else {
            rest.push(seq![c])
        }
    }
}

/// The words of `g` joined by single spaces.
pub open spec fn join(g: Seq<Seq<char>>) -> Seq<char>
    decreases g.len(),
{
    if g.len() == 0 {
        seq![]
    } else if g.len() == 1 {
        g[0]
    } else {
        join(g.drop_last()) + seq![' '] + g.last()
    }
}

/// The words of all groups, in order.
pub open spec fn flatten(groups: Seq<Seq<Seq<char>>>) -> Seq<Seq<char>>
    decreases groups.len(),
{
    if groups.len() == 0 {
        seq![]
    } else {
        flatten(groups.drop_last()) + groups.last()
    }
}

/// `groups` splits `words` into lines the greedy way: every line holds at
/// least one word, a line of several words fits in `width`, and each line
/// ends only where the next word would not have fitted after it.
#[verifier::opaque]
pub open spec fn greedy_groups(
    words: Seq<Seq<char>>,
    width: nat,
    groups: Seq<Seq<Seq<char>>>,
) -> bool {
    &&& flatten(groups) == words
    &&& forall|k: int| 0 <= k < groups.len() ==> (#[trigger] groups[k]).len() >= 1
    &&& forall|k: int|
        0 <= k < groups.len() && (#[trigger] groups[k]).len() > 1 ==> join(groups[k]).len()
            <= width
    &&& forall|k: int|
        0 <= k < groups.len() - 1 ==> join(#[trigger] groups[k]).len() + 1 + groups[k
            + 1][0].len() > width
}

/// `lines` is `text` wrapped to `width` columns: the whole text when the
/// width is zero; one empty line when the text has no words; otherwise the
/// greedy split of its words, each line its words joined by single spaces.
pub open spec fn wrapped(text: Seq<char>, width: nat, lines: Seq<Seq<char>>) -> bool {
    if width == 0 {
        lines == seq![text]
    } else if words(text).len() == 0 {
        lines == seq![Seq::<char>::empty()]
    } else {
        exists|groups: Seq<Seq<Seq<char>>>|
            {
                &&& #[trigger] greedy_groups(words(text), width, groups)
                &&& lines.len() == groups.len()
                &&& forall|k: int| 0 <= k < lines.len() ==> lines[k] == join(groups[k])
            }
    }
}

proof fn lemma_flatten_first(g: Seq<Seq<Seq<char>>>)
    requires
        g.len() > 0,
    ensures
        flatten(g) == g[0] + flatten(g.drop_first()),
    decreases g.len(),
{
    if g.len() == 1 {
        assert(g.drop_last() =~= Seq::<Seq<Seq<char>>>::empty());
        assert(g.drop_first() =~= Seq::<Seq<Seq<char>>>::empty());
        assert(flatten(g.drop_last()) =~= Seq::<Seq<char>>::empty());
        assert(flatten(g) =~= g[0]);
        assert(g[0] + flatten(g.drop_first()) =~= g[0]);
    } else {
        let d = g.drop_last();
        lemma_flatten_first(d);
        assert(d.drop_first() =~= g.drop_first().drop_last());
        assert(g.drop_first().last() == g.last());
        assert(d[0] == g[0]);
        assert(flatten(g) =~= g[0] + flatten(g.drop_first()));
    }
}

proof fn lemma_join_len_prefix(s: Seq<Seq<char>>, a: int, b: int)
    requires
        1 <= a <= b <= s.len(),
    ensures
        join(s.take(a)).len() + (if a < b {
            1 + s[a].len()
        } else {
            0
        }) <= join(s.take(b)).len(),
    decreases b - a,
{
    if a < b {
        let t = s.take(a + 1);
        assert(t.drop_last() =~= s.take(a));
        assert(t.last() == s[a]);
        assert(join(t).len() == join(s.take(a)).len() + 1 + s[a].len());
        if a + 1 < b {
            lemma_join_len_prefix(s, a + 1, b);
        }
    }
}

proof fn lemma_greedy_rest(words: Seq<Seq<char>>, width: nat, g: Seq<Seq<Seq<char>>>)
    requires
        greedy_groups(words, width, g),
        g.len() > 0,
    ensures
        words == g[0] + flatten(g.drop_first()),
        greedy_groups(flatten(g.drop_first()), width, g.drop_first()),
        g.len() > 1 ==> g[1][0] == words[g[0].len() as int],
        g[0].len() >= 1,
        g[0].len() > 1 ==> join(g[0]).len() <= width,
        g.len() > 1 ==> join(g[0]).len() + 1 + g[1][0].len() > width,
{
    reveal(greedy_groups);
    lemma_flatten_first(g);
    let r = g.drop_first();
    assert(g[0].len() >= 1);
    assert forall|k: int| 0 <= k < r.len() implies (#[trigger] r[k]).len() >= 1 by {
        assert(r[k] == g[k + 1]);
    }
    assert forall|k: int| 0 <= k < r.len() && (#[trigger] r[k]).len() > 1 implies join(
        r[k],
    ).len() <= width by {
        assert(r[k] == g[k + 1]);
    }
    assert forall|k: int| 0 <= k < r.len() - 1 implies join(#[trigger] r[k]).len() + 1 + r[k
        + 1][0].len() > width by {
        assert(r[k] == g[k + 1]);
        assert(r[k + 1] == g[k + 2]);
    }
    if g.len() > 1 {
        lemma_flatten_first(r);
        assert(r[0] == g[1]);
        assert(words[g[0].len() as int] == g[1][0]);
    }
}

/// The greedy split of a sequence of words into lines of a given width is
/// unique: wrapping is a function of the words and the width.
pub proof fn lemma_greedy_unique(
    words: Seq<Seq<char>>,
    width: nat,
    g1: Seq<Seq<Seq<char>>>,
    g2: Seq<Seq<Seq<char>>>,
)
    requires
        greedy_groups(words, width, g1),
        greedy_groups(words, width, g2),
    ensures
        g1 == g2,
    decreases words.len(),
{
    if g1.len() == 0 || g2.len() == 0 {
        reveal(greedy_groups);
        if g1.len() > 0 {
            lemma_greedy_rest(words, width, g1);
            assert(g2 =~= Seq::<Seq<Seq<char>>>::empty());
            assert(flatten(g2) =~= Seq::<Seq<char>>::empty());
            assert(words.len() >= g1[0].len());
        } else if g2.len() > 0 {
            lemma_greedy_rest(words, width, g2);
            assert(g1 =~= Seq::<Seq<Seq<char>>>::empty());
            assert(flatten(g1) =~= Seq::<Seq<char>>::empty());
            assert(words.len() >= g2[0].len());
        } else {
            assert(g1 =~= g2);
        }
    } else {
        lemma_greedy_rest(words, width, g1);
        lemma_greedy_rest(words, width, g2);
        let a = g1[0].len() as int;
        let b = g2[0].len() as int;
        assert(g1[0] =~= words.take(a));
        assert(g2[0] =~= words.take(b));
        if a < b {
            assert(flatten(g1.drop_first()).len() > 0);
            assert(g1.drop_first().len() > 0) by {
                if g1.drop_first().len() == 0 {
                    assert(g1.drop_first() =~= Seq::<Seq<Seq<char>>>::empty());
                }
            }
            lemma_join_len_prefix(words, a, b);
            assert(false);
        } else if b < a {
            assert(flatten(g2.drop_first()).len() > 0);
            assert(g2.drop_first().len() > 0) by {
                if g2.drop_first().len() == 0 {
                    assert(g2.drop_first() =~= Seq::<Seq<Seq<char>>>::empty());
                }
            }
            lemma_join_len_prefix(words, b, a);
            assert(false);
        }
        assert(g1[0] == g2[0]);
        let rest = words.skip(a);
        assert(flatten(g1.drop_first()) =~= rest);
        assert(flatten(g2.drop_first()) =~= rest);
        lemma_greedy_unique(rest, width, g1.drop_first(), g2.drop_first());
        assert(g1 =~= seq![g1[0]] + g1.drop_first());
        assert(g2 =~= seq![g2[0]] + g2.drop_first());
    }
}

/// Wrapping is determined: a text has exactly one wrapping to a given width.
pub proof fn lemma_wrapped_unique(
    text: Seq<char>,
    width: nat,
    lines1: Seq<Seq<char>>,
    lines2: Seq<Seq<char>>,
)
    requires
        wrapped(text, width, lines1),
        wrapped(text, width, lines2),
    ensures
        lines1 == lines2,
{
    if width > 0 && words(text).len() > 0 {
        let g1 = choose|groups: Seq<Seq<Seq<char>>>|
            {
                &&& #[trigger] greedy_groups(words(text), width, groups)
                &&& lines1.len() == groups.len()
                &&& forall|k: int| 0 <= k < lines1.len() ==> lines1[k] == join(groups[k])
            };
        let g2 = choose|groups: Seq<Seq<Seq<char>>>|
            {
                &&& #[trigger] greedy_groups(words(text), width, groups)
                &&& lines2.len() == groups.len()
                &&& forall|k: int| 0 <= k < lines2.len() ==> lines2[k] == join(groups[k])
            };
        lemma_greedy_unique(words(text), width, g1, g2);
        assert(lines1 =~= lines2);
    }
}

proof fn lemma_words_are_runs(s: Seq<char>)
    ensures
        forall|k: int|
            0 <= k < words(s).len() ==> (#[trigger] words(s)[k]).len() > 0 && forall|j: int|
                0 <= j < words(s)[k].len() ==> !is_white_space(words(s)[k][j]),
        s.len() > 0 && !is_white_space(s.last()) ==> words(s).len() > 0,
    decreases s.len(),
{
    if s.len() > 0 {
        let d = s.drop_last();
        lemma_words_are_runs(d);
        let rest = words(d);
        let c = s.last();
        if !is_white_space(c) && s.len() >= 2 && !is_white_space(s[s.len() - 2]) {
            assert(d.last() == s[s.len() - 2]);
            let w = words(s);
            assert(w == rest.drop_last().push(rest.last().push(c)));
            assert forall|k: int| 0 <= k < w.len() implies (#[trigger] w[k]).len() > 0 && forall|
                j: int,
            | 0 <= j < w[k].len() ==> !is_white_space(w[k][j]) by {
                if k < w.len() - 1 {
                    assert(w[k] == rest[k]);
                } else {
                    let r = rest[rest.len() - 1];
                    assert(w[k] == r.push(c));
                    assert forall|j: int| 0 <= j < w[k].len() implies !is_white_space(w[k][j]) by {
                        if j < r.len() {
                            assert(w[k][j] == r[j]);
                        }
                    }
                }
            }
        } else if !is_white_space(c) {
            let w = words(s);
            assert(w == rest.push(seq![c]));
            assert forall|k: int| 0 <= k < w.len() implies (#[trigger] w[k]).len() > 0 && forall|
                j: int,
            | 0 <= j < w[k].len() ==> !is_white_space(w[k][j]) by {
                if k < w.len() - 1 {
                    assert(w[k] == rest[k]);
                }
            }
        }
    }
}

proof fn lemma_flatten_member(groups: Seq<Seq<Seq<char>>>, k: int, j: int)
    requires
        0 <= k < groups.len(),
        0 <= j < groups[k].len(),
    ensures
        exists|i: int| 0 <= i < flatten(groups).len() && flatten(groups)[i] == groups[k][j],
    decreases groups.len(),
{
    let d = groups.drop_last();
    let f = flatten(groups);
    if k == groups.len() - 1 {
        let i = flatten(d).len() + j;
        assert(f[i] == groups[k][j]);
    } else {
        lemma_flatten_member(d, k, j);
        let i = choose|i: int| 0 <= i < flatten(d).len() && flatten(d)[i] == d[k][j];
        assert(f[i] == flatten(d)[i]);
    }
}

/// Wrapping to a positive width breaks lines only between words: it gives at
/// least one line; every line of a text that has words is non-empty; and a
/// line wider than the width is a single word, holding no white space.
pub proof fn lemma_wrapped_lines_fit(text: Seq<char>, width: nat, lines: Seq<Seq<char>>)
    requires
        width > 0,
        wrapped(text, width, lines),
    ensures
        lines.len() >= 1,
        words(text).len() > 0 ==> forall|k: int|
            0 <= k < lines.len() ==> (#[trigger] lines[k]).len() > 0 && (lines[k].len() <= width
                || forall|j: int| 0 <= j < lines[k].len() ==> !is_white_space(lines[k][j])),
{
    if words(text).len() > 0 {
        let groups = choose|groups: Seq<Seq<Seq<char>>>|
            {
                &&& #[trigger] greedy_groups(words(text), width, groups)
                &&& lines.len() == groups.len()
                &&& forall|k: int| 0 <= k < lines.len() ==> lines[k] == join(groups[k])
            };
        reveal(greedy_groups);
        lemma_words_are_runs(text);
        if groups.len() == 0 {
            assert(flatten(groups) =~= Seq::<Seq<char>>::empty());
        }
        assert forall|k: int| 0 <= k < lines.len() implies (#[trigger] lines[k]).len() > 0 && (
        lines[k].len() <= width || forall|j: int|
            0 <= j < lines[k].len() ==> !is_white_space(lines[k][j])) by {
            let g = groups[k];
            assert(g.len() >= 1);
            if g.len() == 1 {
                assert(lines[k] == g[0]);
                lemma_flatten_member(groups, k, 0);
                let i = choose|i: int|
                    0 <= i < flatten(groups).len() && flatten(groups)[i] == groups[k][0];
                assert(words(text)[i] == g[0]);
            } else {
                assert(join(g).len() == join(g.drop_last()).len() + 1 + g.last().len());
            }
        }
    }
}

/// Lines being filled word by word.
struct LineFill {
    lines: Vec<String>,
    cur: String,
    cur_len: usize,
    groups: Ghost<Seq<Seq<Seq<char>>>>,
    cur_group: Ghost<Seq<Seq<char>>>,
    placed: Ghost<Seq<Seq<char>>>,
}

impl LineFill {
    spec fn inv(&self, width: nat) -> bool {
        let groups = self.groups@;
        let cur_group = self.cur_group@;
        &&& flatten(groups) + cur_group == self.placed@
        &&& self.lines@.len() == groups.len()
        &&& forall|k: int| 0 <= k < groups.len() ==> (#[trigger] self.lines@[k])@ == join(groups[k])
        &&& forall|k: int| 0 <= k < groups.len() ==> (#[trigger] groups[k]).len() >= 1
        &&& forall|k: int|
            0 <= k < groups.len() && (#[trigger] groups[k]).len() > 1 ==> join(groups[k]).len()
                <= width
        &&& forall|k: int|
            0 <= k < groups.len() - 1 ==> join(#[trigger] groups[k]).len() + 1 + groups[k
                + 1][0].len() > width
        &&& groups.len() > 0 ==> cur_group.len() > 0 && join(groups.last()).len() + 1
            + cur_group[0].len() > width
        &&& self.cur@ == join(cur_group)
        &&& self.cur_len == self.cur@.len()
        &&& (cur_group.len() == 0 <==> self.cur_len == 0)
        &&& cur_group.len() > 1 ==> self.cur_len <= width
    }

    /// Put one more word on the current line if it fits, else start a new line with it.
    fn place_word(&mut self, word: &str, width: usize)
        requires
            old(self).inv(width as nat),
            word@.len() > 0,
        ensures
            final(self).inv(width as nat),
            final(self).placed@ == old(self).placed@.push(word@),
    {
        let wlen = word.unicode_len();
        let ghost g0 = self.groups@;
        let ghost cg0 = self.cur_group@;
        if self.cur_len == 0 {
            self.cur.append(word);
            self.cur_len = wlen;
            self.cur_group = Ghost(Seq::empty().push(word@));
            proof {
                assert(cg0 =~= Seq::<Seq<char>>::empty());
                assert(flatten(g0) + seq![word@] =~= (flatten(g0) + cg0).push(word@));
            }
        } else if (self.cur_len as u128) + 1 + (wlen as u128) <= (width as u128) {
            proof {
                reveal_strlit(" ");
            }
            self.cur.append(" ");
            self.cur.append(word);
            self.cur_len = self.cur_len + 1 + wlen;
            self.cur_group = Ghost(cg0.push(word@));
            proof {
                assert(cg0.push(word@).drop_last() =~= cg0);
                assert(self.cur@ =~= join(cg0) + seq![' '] + word@);
                assert(flatten(g0) + cg0.push(word@) =~= (flatten(g0) + cg0).push(word@));
            }
        } else {
            let mut line = String::new();
            std::mem::swap(&mut line, &mut self.cur);
            self.lines.push(line);
            self.cur.append(word);
            self.cur_len = wlen;
            self.groups = Ghost(g0.push(cg0));
            self.cur_group = Ghost(Seq::empty().push(word@));
            proof {
                let g1 = g0.push(cg0);
                assert(g1.drop_last() =~= g0);
                assert(flatten(g1) == flatten(g0) + cg0);
                assert(flatten(g1) + seq![word@] =~= (flatten(g0) + cg0).push(word@));
                assert forall|k: int| 0 <= k < g1.len() implies (#[trigger] self.lines@[k])@ == join(
                    g1[k],
                ) by {
                    if k < g0.len() {
                        assert(g1[k] == g0[k]);
                    }
                }
                assert forall|k: int| 0 <= k < g1.len() - 1 implies join(#[trigger] g1[k]).len() + 1
                    + g1[k + 1][0].len() > width by {
                    assert(g1[k] == g0[k]);
                    if k + 1 < g0.len() {
                        assert(g1[k + 1] == g0[k + 1]);
                    }
                }
            }
        }
        self.placed = Ghost(self.placed@.push(word@));
    }
}

/// Every word of `text`, placed in order on lines of `width` columns.
fn fill_words(text: &str, width: usize) -> (fill: LineFill)
    requires
        width > 0,
    ensures
        fill.inv(width as nat),
        fill.placed@ == words(text@),
{
    let n = text.unicode_len();
    let mut fill = LineFill {
        lines: Vec::new(),
        cur: String::new(),
        cur_len: 0,
        groups: Ghost(Seq::empty()),
        cur_group: Ghost(Seq::empty()),
        placed: Ghost(Seq::empty()),
    };
    let mut in_word = false;
    let mut start: usize = 0;
    let mut i: usize = 0;
    proof {
        assert(flatten(fill.groups@) =~= Seq::<Seq<char>>::empty());
        assert(fill.placed@ =~= flatten(fill.groups@) + fill.cur_group@);
        assert(text@.take(0) =~= Seq::<char>::empty());
    }
    while i < n
        invariant
            n == text@.len(),
            width > 0,
            i <= n,
            fill.inv(width as nat),
            in_word ==> {
                &&& start < i
                &&& words(text@.take(i as int)) == fill.placed@.push(
                    text@.subrange(start as int, i as int),
                )
                &&& !is_white_space(text@[i - 1])
            },
            !in_word ==> {
                &&& words(text@.take(i as int)) == fill.placed@
                &&& (i == 0 || is_white_space(text@[i - 1]))
            },
        decreases n - i,
    {
        let c = text.get_char(i);
        let ghost t1 = text@.take(i + 1);
        proof {
            assert(t1.drop_last() =~= text@.take(i as int));
            assert(t1.last() == c);
            if i > 0 {
                assert(t1[t1.len() - 2] == text@[i - 1]);
            }
        }
        if is_white_space_char(c) {
            if in_word {
                let word = text.substring_char(start, i);
                fill.place_word(word, width);
                in_word = false;
            }
        } else if in_word {
            proof {
                assert(text@.subrange(start as int, i as int).push(c) =~= text@.subrange(
                    start as int,
                    i + 1,
                ));
                assert(fill.placed@.push(text@.subrange(start as int, i as int)).drop_last()
                    =~= fill.placed@);
            }
        } else {
            in_word = true;
            start = i;
            proof {
                assert(text@.subrange(start as int, i + 1) =~= seq![c]);
            }
        }
        i += 1;
    }
    proof {
        assert(text@.take(n as int) =~= text@);
    }
    if in_word {
        let word = text.substring_char(start, n);
        fill.place_word(word, width);
    }
    fill
}

/// The lines of a fill: its finished lines and the current one, or a single
/// empty line when no word was placed.
fn finish_lines(fill: LineFill, width: usize) -> (res: Vec<String>)
    requires
        width > 0,
        fill.inv(width as nat),
    ensures
        fill.placed@.len() == 0 ==> res@.map_values(|s: String| s@) == seq![Seq::<char>::empty()],
        fill.placed@.len() > 0 ==> exists|groups: Seq<Seq<Seq<char>>>|
            {
                &&& #[trigger] greedy_groups(fill.placed@, width as nat, groups)
                &&& res@.len() == groups.len()
                &&& forall|k: int| 0 <= k < res@.len() ==> res@[k]@ == join(groups[k])
            },
{
    let ghost mut groups = fill.groups@;
    let ghost placed = fill.placed@;
    let ghost cur_group = fill.cur_group@;
    let mut lines = fill.lines;
    if fill.cur_len != 0 {
        lines.push(fill.cur);
        proof {
            let g1 = groups.push(cur_group);
            assert(g1.drop_last() =~= groups);
            assert forall|k: int| 0 <= k < g1.len() - 1 implies join(#[trigger] g1[k]).len() + 1
                + g1[k + 1][0].len() > width by {
                assert(g1[k] == groups[k]);
                if k + 1 < groups.len() {
                    assert(g1[k + 1] == groups[k + 1]);
                }
            }
            assert forall|k: int| 0 <= k < g1.len() implies (#[trigger] lines@[k])@ == join(
                g1[k],
            ) by {
                if k < groups.len() {
                    assert(g1[k] == groups[k]);
                }
            }
            groups = g1;
        }
    } else {
        proof {
            assert(cur_group =~= Seq::<Seq<char>>::empty());
            assert(flatten(groups) + cur_group =~= flatten(groups));
        }
    }
    if lines.len() == 0 {
        lines.push(String::new());
        proof {
            assert(groups.len() == 0);
            assert(flatten(groups) =~= Seq::<Seq<char>>::empty());
            assert(lines@.map_values(|s: String| s@) =~= seq![Seq::<char>::empty()]);
        }
    } else {
        proof {
            reveal(greedy_groups);
            assert(greedy_groups(placed, width as nat, groups));
        }
    }
    lines
}

/// Minimal greedy word-wrap to `width` columns.
pub fn word_wrap(text: &str, width: usize) -> (res: Vec<String>)
    ensures
        wrapped(text@, width as nat, res@.map_values(|s: String| s@)),
{
    if width == 0 {
        let mut whole: Vec<String> = Vec::new();
        whole.push(String::from_str(text));
        proof {
            assert(whole@.map_values(|s: String| s@) =~= seq![text@]);
        }
        return whole;
    }
    let fill = fill_words(text, width);
    let res = finish_lines(fill, width);
    proof {
        let v = res@.map_values(|s: String| s@);
        if words(text@).len() > 0 {
            let groups = choose|groups: Seq<Seq<Seq<char>>>|
                {
                    &&& #[trigger] greedy_groups(words(text@), width as nat, groups)
                    &&& res@.len() == groups.len()
                    &&& forall|k: int| 0 <= k < res@.len() ==> res@[k]@ == join(groups[k])
                };
            assert(greedy_groups(words(text@), width as nat, groups));
        }
    }
    res
}

} // verus!
