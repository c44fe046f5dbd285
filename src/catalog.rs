use vstd::prelude::*;
use vstd::string::*;

verus! {

/// The characters with the Unicode `White_Space` property.
pub open spec fn is_space(c: char) -> bool {
    c == '\t' || c == '\n' || c == '\x0B' || c == '\x0C' || c == '\r' || c == ' '
        || c == '\u{85}' || c == '\u{A0}' || c == '\u{1680}'
        || ('\u{2000}' <= c && c <= '\u{200A}')
        || c == '\u{2028}' || c == '\u{2029}' || c == '\u{202F}' || c == '\u{205F}'
        || c == '\u{3000}'
}

/// The longest prefix of `s` that holds no whitespace.
pub open spec fn leading_word(s: Seq<char>) -> Seq<char>
    decreases s.len(),
{
    if s.len() == 0 || is_space(s[0]) {
        Seq::empty()
    } else {
        seq![s[0]] + leading_word(s.drop_first())
    }
}

/// The whitespace-separated tokens of `s`, in order.
pub open spec fn words(s: Seq<char>) -> Seq<Seq<char>>
    decreases s.len(),
    via words_decreases
{
    if s.len() == 0 {
        Seq::empty()
    } else if is_space(s[0]) {
        words(s.drop_first())
    } else {
        let w = leading_word(s);
        seq![w] + words(s.skip(w.len() as int))
    }
}

#[via_fn]
proof fn words_decreases(s: Seq<char>) {
    if s.len() > 0 && !is_space(s[0]) {
        lemma_leading_word_len(s);
    }
}

/// Tests a character for the Unicode `White_Space` property.
pub fn is_space_char(c: char) -> (r: bool)
    ensures
        r == is_space(c),
{
    c == '\t' || c == '\n' || c == '\x0B' || c == '\x0C' || c == '\r' || c == ' '
        || c == '\u{85}' || c == '\u{A0}' || c == '\u{1680}'
        || ('\u{2000}' <= c && c <= '\u{200A}')
        || c == '\u{2028}' || c == '\u{2029}' || c == '\u{202F}' || c == '\u{205F}'
        || c == '\u{3000}'
}

proof fn lemma_leading_word_len(s: Seq<char>)
    ensures
        leading_word(s).len() <= s.len(),
        s.len() > 0 && !is_space(s[0]) ==> leading_word(s).len() > 0,
        leading_word(s) == s.subrange(0, leading_word(s).len() as int),
        forall|k: int| 0 <= k < leading_word(s).len() ==> !is_space(#[trigger] leading_word(s)[k]),
    decreases s.len(),
{
    if s.len() > 0 && !is_space(s[0]) {
        lemma_leading_word_len(s.drop_first());
        let w = leading_word(s.drop_first());
        assert(leading_word(s) =~= s.subrange(0, leading_word(s).len() as int));
        assert forall|k: int| 0 <= k < leading_word(s).len() implies !is_space(
            #[trigger] leading_word(s)[k],
        ) by {
            if k > 0 {
                assert(leading_word(s)[k] == w[k - 1]);
            }
        }
    }
}

/// Past a run of non-space characters, the leading word extends by that run.
proof fn lemma_leading_word_step(s: Seq<char>, i: int)
    requires
        0 <= i < s.len(),
        !is_space(s[i]),
    ensures
        leading_word(s.skip(i)) == seq![s[i]] + leading_word(s.skip(i + 1)),
{
    assert(s.skip(i).drop_first() =~= s.skip(i + 1));
}

proof fn lemma_skip_step(s: Seq<char>, i: int)
    requires
        0 <= i < s.len(),
    ensures
        s.skip(i).drop_first() == s.skip(i + 1),
        s.skip(i)[0] == s[i],
{
    assert(s.skip(i).drop_first() =~= s.skip(i + 1));
}

} // verus!

verus! {

/// The text of each string in `v`, in order.
pub open spec fn texts(v: Seq<String>) -> Seq<Seq<char>> {
    v.map_values(|x: String| x@)
}

/// Splits `s` into its whitespace-separated tokens.
pub fn tokenize(s: &str) -> (r: Vec<String>)
    ensures
        texts(r@) == words(s@),
{
    let n = s.unicode_len();
    let mut out: Vec<String> = Vec::new();
    let mut i: usize = 0;
    proof {
        assert(s@.skip(0) =~= s@);
        assert(texts(out@) + words(s@) =~= words(s@));
    }
    while i < n
        invariant
            n == s@.len(),
            i <= n,
            texts(out@) + words(s@.skip(i as int)) == words(s@),
        decreases n - i,
    {
        let c = s.get_char(i);
        proof {
            lemma_skip_step(s@, i as int);
        }
        if is_space_char(c) {
            i = i + 1;
        } else {
            proof {
                lemma_leading_word_step(s@, i as int);
                assert(s@.subrange(i as int, i + 1) =~= seq![c]);
            }
            let mut j: usize = i + 1;
            while j < n && !is_space_char(s.get_char(j))
                invariant
                    n == s@.len(),
                    i < j <= n,
                    leading_word(s@.skip(i as int)) == s@.subrange(i as int, j as int)
                        + leading_word(s@.skip(j as int)),
                decreases n - j,
            {
                proof {
                    lemma_leading_word_step(s@, j as int);
                    assert(s@.subrange(i as int, j + 1) =~= s@.subrange(i as int, j as int)
                        + seq![s@[j as int]]);
                }
                j = j + 1;
            }
            proof {
                if j < n {
                    lemma_skip_step(s@, j as int);
                }
                assert(leading_word(s@.skip(j as int)) =~= Seq::<char>::empty());
                assert(s@.subrange(i as int, j as int) + Seq::<char>::empty()
                    =~= s@.subrange(i as int, j as int));
                assert(s@.skip(i as int).skip(j - i) =~= s@.skip(j as int));
            }
            let w = String::from_str(s.substring_char(i, j));
            let ghost before = out@;
            out.push(w);
            proof {
                assert(texts(out@) =~= texts(before).push(w@));
                assert(texts(out@) + words(s@.skip(j as int)) =~= texts(before) + (seq![w@]
                    + words(s@.skip(j as int))));
            }
            i = j;
        }
    }
    proof {
        assert(s@.skip(n as int) =~= Seq::<char>::empty());
        assert(texts(out@) + Seq::<Seq<char>>::empty() =~= texts(out@));
    }
    out
}

} // verus!

verus! {

/// The tokens of `ws` separated by single spaces.
pub open spec fn join(ws: Seq<Seq<char>>) -> Seq<char>
    decreases ws.len(),
{
    if ws.len() == 0 {
        Seq::empty()
    } else if ws.len() == 1 {
        ws[0]
    } else {
        join(ws.drop_last()) + seq![' '] + ws.last()
    }
}

/// One runnable command: a program and its arguments.
pub struct CommandItem {
    item: String,
    args: Vec<String>,
}

impl View for CommandItem {
    type V = Seq<Seq<char>>;

    /// The program followed by its arguments.
    closed spec fn view(&self) -> Seq<Seq<char>> {
        seq![self.item@] + texts(self.args@)
    }
}

impl CommandItem {
    /// Builds the command that a configuration line describes, or `None` for a
    /// line that holds no token.
    pub fn new(str: String) -> (r: Option<CommandItem>)
        ensures
            r is None <==> words(str@).len() == 0,
            r matches Some(c) ==> c@ == words(str@),
    {
        let mut parsed_vec = Self::parse_string(str);
        if parsed_vec.len() == 0 {
            return None;
        }
        let ghost all = parsed_vec@;
        let command = parsed_vec.remove(0);
        proof {
            assert(texts(all) =~= seq![command@] + texts(parsed_vec@));
        }
        Some(CommandItem { item: command, args: parsed_vec })
    }

    /// The whitespace-separated tokens of a configuration line.
    pub fn parse_string(str: String) -> (r: Vec<String>)
        ensures
            texts(r@) == words(str@),
    {
        tokenize(str.as_str())
    }

    pub fn program(&self) -> (r: &String)
        ensures
            r@ == self@[0],
    {
        &self.item
    }

    pub fn args(&self) -> (r: &Vec<String>)
        ensures
            texts(r@) == self@.skip(1),
    {
        proof {
            assert(self@.skip(1) =~= texts(self.args@));
        }
        &self.args
    }

    /// The program and its arguments separated by single spaces.
    pub fn display_text(&self) -> (r: String)
        ensures
            r@ == join(self@),
    {
        let mut x = self.item.clone();
        let mut k: usize = 0;
        proof {
            assert(self@.take(1) =~= seq![self.item@]);
        }
        while k < self.args.len()
            invariant
                k <= self.args@.len(),
                x@ == join(self@.take(k + 1)),
            decreases self.args@.len() - k,
        {
            let ghost prev = x@;
            x.append(" ");
            x.append(self.args[k].as_str());
            proof {
                reveal_strlit(" ");
                assert(x@ =~= prev + seq![' '] + self.args@[k as int]@);
                let t = self@.take(k + 2);
                assert(t.drop_last() =~= self@.take(k + 1));
                assert(t.last() == self.args@[k as int]@);
                assert(x@ =~= join(self@.take(k + 1)) + seq![' '] + t.last());
            }
            k = k + 1;
        }
        proof {
            assert(self@.take(k + 1) =~= self@);
        }
        x
    }
}

} // verus!

verus! {

/// The commands that `lines` describe, in order; a line without a token gives none.
pub open spec fn catalog_of(lines: Seq<Seq<char>>) -> Seq<Seq<Seq<char>>>
    decreases lines.len(),
{
    if lines.len() == 0 {
        Seq::empty()
    } else {
        let rest = catalog_of(lines.drop_last());
        if words(lines.last()).len() > 0 {
            rest.push(words(lines.last()))
        } else {
            rest
        }
    }
}

/// A cursor is either unset or an index of the catalog.
pub open spec fn cursor_ok(sel: Option<usize>, len: nat) -> bool {
    match sel {
        None => true,
        Some(i) => i < len,
    }
}

/// The cursor after a move down: one further, stopping at the last index.
pub open spec fn next_cursor(sel: Option<usize>, len: nat) -> Option<usize> {
    if len == 0 {
        None
    } else {
        match sel {
            None => Some(0),
            Some(i) => if i + 1 < len { Some((i + 1) as usize) } else { Some((len - 1) as usize) },
        }
    }
}

/// The cursor after a move up: one back, stopping at index 0; an unset
/// cursor goes to the last index.
pub open spec fn prev_cursor(sel: Option<usize>, len: nat) -> Option<usize> {
    if len == 0 {
        None
    } else {
        match sel {
            None => Some((len - 1) as usize),
            Some(i) => if i == 0 || i >= len { Some(0) } else { Some((i - 1) as usize) },
        }
    }
}

/// The cursor on `index`, or on the last index when `index` is past it.
pub open spec fn clamp_cursor(index: usize, len: nat) -> Option<usize> {
    if len == 0 {
        None
    } else if index < len {
        Some(index)
    } else {
        Some((len - 1) as usize)
    }
}

/// The catalog of commands, in display order, with the selection cursor.
pub struct CommandList {
    commands: Vec<CommandItem>,
    selected: Option<usize>,
}

impl CommandList {
    /// The commands, each as its program followed by its arguments.
    pub closed spec fn items(&self) -> Seq<Seq<Seq<char>>> {
        self.commands@.map_values(|c: CommandItem| c@)
    }

    pub closed spec fn cursor(&self) -> Option<usize> {
        self.selected
    }

    pub open spec fn wf(&self) -> bool {
        cursor_ok(self.cursor(), self.items().len())
    }

    /// Builds the catalog from configuration lines, one command per line that
    /// holds a token, in line order; nothing is selected.
    pub fn new(lines: &Vec<String>) -> (r: CommandList)
        ensures
            r.wf(),
            r.items() == catalog_of(texts(lines@)),
            r.cursor() is None,
    {
        let mut config: Vec<CommandItem> = Vec::new();
        let mut k: usize = 0;
        while k < lines.len()
            invariant
                k <= lines@.len(),
                config@.map_values(|c: CommandItem| c@) == catalog_of(texts(lines@).take(k as int)),
            decreases lines@.len() - k,
        {
            let ghost before = config@;
            let item = CommandItem::new(lines[k].clone());
            proof {
                let t = texts(lines@).take(k + 1);
                assert(t.drop_last() =~= texts(lines@).take(k as int));
                assert(t.last() == lines@[k as int]@);
            }
            match item {
                Some(c) => {
                    config.push(c);
                    proof {
                        assert(config@.map_values(|c: CommandItem| c@) =~= before.map_values(
                            |c: CommandItem| c@,
                        ).push(c@));
                    }
                },
                None => {},
            }
            k = k + 1;
        }
        proof {
            assert(texts(lines@).take(k as int) =~= texts(lines@));
        }
        CommandList { commands: config, selected: None }
    }

    pub fn len(&self) -> (n: usize)
        ensures
            n == self.items().len(),
    {
        self.commands.len()
    }

    pub fn get(&self, index: usize) -> (r: &CommandItem)
        requires
            index < self.items().len(),
        ensures
            r@ == self.items()[index as int],
    {
        &self.commands[index]
    }

    pub fn selected(&self) -> (r: Option<usize>)
        ensures
            r == self.cursor(),
    {
        self.selected
    }

    /// The display text of each command, in order.
    pub fn item_texts(&self) -> (r: Vec<String>)
        ensures
            texts(r@) == self.items().map_values(|ws: Seq<Seq<char>>| join(ws)),
    {
        let mut items: Vec<String> = Vec::new();
        let mut k: usize = 0;
        while k < self.commands.len()
            invariant
                k <= self.commands@.len(),
                texts(items@) == self.items().take(k as int).map_values(
                    |ws: Seq<Seq<char>>| join(ws),
                ),
            decreases self.commands@.len() - k,
        {
            let x = self.commands[k].display_text();
            let ghost before = items@;
            items.push(x);
            proof {
                assert(texts(items@) =~= texts(before).push(x@));
                assert(self.items()[k as int] == self.commands@[k as int]@);
                assert(texts(items@) =~= self.items().take(k + 1).map_values(
                    |ws: Seq<Seq<char>>| join(ws),
                ));
            }
            k = k + 1;
        }
        proof {
            assert(self.items().take(k as int) =~= self.items());
        }
        items
    }

    pub fn select_next(&mut self)
        requires
            old(self).wf(),
        ensures
            final(self).wf(),
            final(self).items() == old(self).items(),
            final(self).cursor() == next_cursor(old(self).cursor(), old(self).items().len()),
    {
        let n = self.commands.len();
        if n == 0 {
            self.selected = None;
        } else {
            self.selected = match self.selected {
                None => Some(0),
                Some(i) => if i + 1 < n { Some(i + 1) } else { Some(n - 1) },
            };
        }
    }

    pub fn select_previous(&mut self)
        requires
            old(self).wf(),
        ensures
            final(self).wf(),
            final(self).items() == old(self).items(),
            final(self).cursor() == prev_cursor(old(self).cursor(), old(self).items().len()),
    {
        let n = self.commands.len();
        if n == 0 {
            self.selected = None;
        } else {
            self.selected = match self.selected {
                None => Some(n - 1),
                Some(i) => if i == 0 || i >= n { Some(0) } else { Some(i - 1) },
            };
        }
    }

    pub fn select(&mut self, index: usize)
        requires
            old(self).wf(),
        ensures
            final(self).wf(),
            final(self).items() == old(self).items(),
            final(self).cursor() == clamp_cursor(index, old(self).items().len()),
    {
        let n = self.commands.len();
        if n == 0 {
            self.selected = None;
        } else if index < n {
            self.selected = Some(index);
        } else {
            self.selected = Some(n - 1);
        }
    }
}

} // verus!

verus! {

/// A token: non-empty, without whitespace.
pub open spec fn is_token(w: Seq<char>) -> bool {
    w.len() > 0 && forall|k: int| 0 <= k < w.len() ==> !is_space(#[trigger] w[k])
}

proof fn lemma_leading_word_of_token(w: Seq<char>, t: Seq<char>)
    requires
        forall|k: int| 0 <= k < w.len() ==> !is_space(#[trigger] w[k]),
        t.len() == 0 || is_space(t[0]),
    ensures
        leading_word(w + t) == w,
    decreases w.len(),
{
    if w.len() == 0 {
        assert(w + t =~= t);
    } else {
        let r = w.drop_first();
        assert forall|k: int| 0 <= k < r.len() implies !is_space(#[trigger] r[k]) by {
            assert(r[k] == w[k + 1]);
        }
        lemma_leading_word_of_token(r, t);
        assert((w + t).drop_first() =~= r + t);
        assert(w =~= seq![w[0]] + r);
    }
}

proof fn lemma_words_token_then(w: Seq<char>, t: Seq<char>)
    requires
        is_token(w),
        t.len() == 0 || is_space(t[0]),
    ensures
        words(w + t) == seq![w] + words(t),
{
    lemma_leading_word_of_token(w, t);
    assert((w + t).skip(w.len() as int) =~= t);
}

proof fn lemma_join_front(ws: Seq<Seq<char>>)
    requires
        ws.len() >= 2,
    ensures
        join(ws) == ws[0] + seq![' '] + join(ws.drop_first()),
    decreases ws.len(),
{
    if ws.len() > 2 {
        lemma_join_front(ws.drop_last());
        assert(ws.drop_last().drop_first() =~= ws.drop_first().drop_last());
        assert(ws.drop_first().last() == ws.last());
        assert(join(ws) =~= ws[0] + seq![' '] + join(ws.drop_first()));
    } else {
        assert(ws.drop_last().len() == 1);
        assert(ws.drop_first().len() == 1);
        assert(ws.drop_last()[0] == ws[0]);
        assert(ws.drop_first()[0] == ws[1]);
        assert(join(ws.drop_last()) == ws[0]);
        assert(join(ws.drop_first()) == ws.last());
    }
}

/// Tokenizing tokens joined by single spaces gives those tokens back.
pub proof fn lemma_words_of_join(ws: Seq<Seq<char>>)
    requires
        forall|i: int| 0 <= i < ws.len() ==> is_token(#[trigger] ws[i]),
    ensures
        words(join(ws)) == ws,
    decreases ws.len(),
{
    if ws.len() == 1 {
        lemma_words_token_then(ws[0], Seq::empty());
        assert(ws[0] + Seq::<char>::empty() =~= ws[0]);
        assert(ws =~= seq![ws[0]]);
    } else if ws.len() >= 2 {
        let rest = ws.drop_first();
        assert forall|i: int| 0 <= i < rest.len() implies is_token(#[trigger] rest[i]) by {
            assert(rest[i] == ws[i + 1]);
        }
        lemma_words_of_join(rest);
        lemma_join_front(ws);
        let t = seq![' '] + join(rest);
        assert(is_token(ws[0]));
        lemma_words_token_then(ws[0], t);
        assert(ws[0] + seq![' '] + join(rest) =~= ws[0] + t);
        assert(t.drop_first() =~= join(rest));
        assert(ws =~= seq![ws[0]] + rest);
    }
}

/// Lines that each hold a command as its tokens joined by single spaces
/// load into a catalog with one entry per line, in line order, and each
/// entry's display text is its line again.
pub proof fn lemma_catalog_round_trip(lines: Seq<Seq<char>>, cmds: Seq<Seq<Seq<char>>>)
    requires
        lines.len() == cmds.len(),
        forall|k: int| 0 <= k < cmds.len() ==> (#[trigger] cmds[k]).len() > 0,
        forall|k: int, i: int|
            0 <= k < cmds.len() && 0 <= i < cmds[k].len() ==> is_token(#[trigger] cmds[k][i]),
        forall|k: int| 0 <= k < lines.len() ==> #[trigger] lines[k] == join(cmds[k]),
    ensures
        catalog_of(lines) == cmds,
        catalog_of(lines).len() == lines.len(),
        forall|k: int| 0 <= k < lines.len() ==> join(#[trigger] catalog_of(lines)[k]) == lines[k],
    decreases lines.len(),
{
    if lines.len() > 0 {
        let n = lines.len() - 1;
        lemma_catalog_round_trip(lines.drop_last(), cmds.drop_last());
        let c = cmds[n];
        assert forall|i: int| 0 <= i < c.len() implies is_token(#[trigger] c[i]) by {
            assert(is_token(cmds[n][i]));
        }
        lemma_words_of_join(c);
        assert(lines.last() == join(c));
        assert(catalog_of(lines) =~= cmds);
    } else {
        assert(cmds =~= Seq::<Seq<Seq<char>>>::empty());
    }
}

} // verus!
