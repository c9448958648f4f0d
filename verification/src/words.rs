//! The word bank: fixed lists of short words, long words and punctuation
//! characters, and the random draws the spawner takes from them.  Words are
//! carried as vectors of characters, since the game consumes them one
//! leading character at a time.

use vstd::prelude::*;
use crate::rng::random_index;

verus! {

/// Copy a word.
fn clone_word(w: &Vec<char>) -> (r: Vec<char>)
    ensures
        r@ == w@,
{
    let mut out: Vec<char> = Vec::new();
    let mut i: usize = 0;
    while i < w.len()
        invariant
            i <= w@.len(),
            out@ == w@.subrange(0, i as int),
        decreases w@.len() - i,
    {
        out.push(w[i]);
        i += 1;
    }
    proof {
        assert(out@ =~= w@);
    }
    out
}

/// The supplies of words the spawner draws from.
pub struct WordsResource {
    pub short_words: Vec<Vec<char>>,
    pub long_words: Vec<Vec<char>>,
    pub special_chars: Vec<char>,
}

impl WordsResource {
    /// Each list has something to draw, and no word is empty.
    pub open spec fn wf(self) -> bool {
        &&& self.short_words@.len() > 0
        &&& self.long_words@.len() > 0
        &&& self.special_chars@.len() > 0
        &&& forall|i: int|
            0 <= i < self.short_words@.len() ==> (#[trigger] self.short_words@[i])@.len() > 0
        &&& forall|i: int|
            0 <= i < self.long_words@.len() ==> (#[trigger] self.long_words@[i])@.len() > 0
    }

    /// A random word of the short list.
    pub fn short_word(&self) -> (r: Vec<char>)
        requires
            self.wf(),
        ensures
            r@.len() > 0,
            exists|i: int| 0 <= i < self.short_words@.len() && r@ == (#[trigger] self.short_words@[i])@,
    {
        let i = random_index(self.short_words.len());
        clone_word(&self.short_words[i])
    }

    /// A random word of the long list.
    pub fn long_word(&self) -> (r: Vec<char>)
        requires
            self.wf(),
        ensures
            r@.len() > 0,
            exists|i: int| 0 <= i < self.long_words@.len() && r@ == (#[trigger] self.long_words@[i])@,
    {
        let i = random_index(self.long_words.len());
        clone_word(&self.long_words[i])
    }

    /// A random punctuation sequence of three to six characters, each drawn
    /// from the special list.
    pub fn special_word(&self) -> (r: Vec<char>)
        requires
            self.wf(),
        ensures
            3 <= r@.len() <= 6,
            forall|i: int| 0 <= i < r@.len() ==> self.special_chars@.contains(#[trigger] r@[i]),
    {
        let count = 3 + random_index(4);
        let mut out: Vec<char> = Vec::new();
        let mut i: usize = 0;
        while i < count
            invariant
                i <= count,
                count <= 6,
                out@.len() == i,
                self.wf(),
                forall|j: int| 0 <= j < out@.len() ==> self.special_chars@.contains(#[trigger] out@[j]),
            decreases count - i,
        {
            let k = random_index(self.special_chars.len());
            out.push(self.special_chars[k]);
            i += 1;
        }
        out
    }

    /// The fixed supplies of the game.
    pub fn from_file() -> (r: WordsResource)
        ensures
            r.wf(),
            r.short_words@.len() == 5,
            r.short_words@[0]@ == "short"@,
            r.short_words@[1]@ == "should"@,
            r.short_words@[2]@ == "be"@,
            r.short_words@[3]@ == "not"@,
            r.short_words@[4]@ == "long"@,
            r.long_words@.len() == 1,
            r.long_words@[0]@ == "longword"@,
            r.special_chars@ == seq![
                '!', '@', '#', '$', '%', '^', '&', '*', '(', ')', '-', '_', '=', '+', '[', ']',
                '{', '}', ';', ':', '\'', '"', ',', '<', '>', '.', '/', '?', '\\', '|',
            ],
    {
        proof {
            reveal_strlit("short");
            reveal_strlit("should");
            reveal_strlit("be");
            reveal_strlit("not");
            reveal_strlit("long");
            reveal_strlit("longword");
        }
        let mut short_words: Vec<Vec<char>> = Vec::new();
        short_words.push(word_short());
        short_words.push(word_should());
        short_words.push(word_be());
        short_words.push(word_not());
        short_words.push(word_long());
        let mut long_words: Vec<Vec<char>> = Vec::new();
        long_words.push(word_longword());
        let special_chars = special_list();
        WordsResource { short_words, long_words, special_chars }
    }
}

fn word_short() -> (r: Vec<char>)
    ensures
        r@ == "short"@,
{
    proof {
        reveal_strlit("short");
    }
    let mut w: Vec<char> = Vec::new();
    w.push('s');
    w.push('h');
    w.push('o');
    w.push('r');
    w.push('t');
    proof {
        assert(w@ =~= "short"@);
    }
    w
}

fn word_should() -> (r: Vec<char>)
    ensures
        r@ == "should"@,
{
    proof {
        reveal_strlit("should");
    }
    let mut w: Vec<char> = Vec::new();
    w.push('s');
    w.push('h');
    w.push('o');
    w.push('u');
    w.push('l');
    w.push('d');
    proof {
        assert(w@ =~= "should"@);
    }
    w
}

fn word_be() -> (r: Vec<char>)
    ensures
        r@ == "be"@,
{
    proof {
        reveal_strlit("be");
    }
    let mut w: Vec<char> = Vec::new();
    w.push('b');
    w.push('e');
    proof {
        assert(w@ =~= "be"@);
    }
    w
}

fn word_not() -> (r: Vec<char>)
    ensures
        r@ == "not"@,
{
    proof {
        reveal_strlit("not");
    }
    let mut w: Vec<char> = Vec::new();
    w.push('n');
    w.push('o');
    w.push('t');
    proof {
        assert(w@ =~= "not"@);
    }
    w
}

fn word_long() -> (r: Vec<char>)
    ensures
        r@ == "long"@,
{
    proof {
        reveal_strlit("long");
    }
    let mut w: Vec<char> = Vec::new();
    w.push('l');
    w.push('o');
    w.push('n');
    w.push('g');
    proof {
        assert(w@ =~= "long"@);
    }
    w
}

fn word_longword() -> (r: Vec<char>)
    ensures
        r@ == "longword"@,
{
    proof {
        reveal_strlit("longword");
    }
    let mut w: Vec<char> = Vec::new();
    w.push('l');
    w.push('o');
    w.push('n');
    w.push('g');
    w.push('w');
    w.push('o');
    w.push('r');
    w.push('d');
    proof {
        assert(w@ =~= "longword"@);
    }
    w
}

fn special_list() -> (r: Vec<char>)
    ensures
        r@ == seq![
            '!', '@', '#', '$', '%', '^', '&', '*', '(', ')', '-', '_', '=', '+', '[', ']',
            '{', '}', ';', ':', '\'', '"', ',', '<', '>', '.', '/', '?', '\\', '|',
        ],
{
    let mut w: Vec<char> = Vec::new();
    w.push('!');
    w.push('@');
    w.push('#');
    w.push('$');
    w.push('%');
    w.push('^');
    w.push('&');
    w.push('*');
    w.push('(');
    w.push(')');
    w.push('-');
    w.push('_');
    w.push('=');
    w.push('+');
    w.push('[');
    w.push(']');
    w.push('{');
    w.push('}');
    w.push(';');
    w.push(':');
    w.push('\'');
    w.push('"');
    w.push(',');
    w.push('<');
    w.push('>');
    w.push('.');
    w.push('/');
    w.push('?');
    w.push('\\');
    w.push('|');
    proof {
        assert(w@ =~= seq![
            '!', '@', '#', '$', '%', '^', '&', '*', '(', ')', '-', '_', '=', '+', '[', ']',
            '{', '}', ';', ':', '\'', '"', ',', '<', '>', '.', '/', '?', '\\', '|',
        ]);
    }
    w
}

} // verus!
