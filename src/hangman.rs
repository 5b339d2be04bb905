use vstd::prelude::*;

verus! {

/// Wrong guesses a player may make before the game is lost.
pub const NUM_INCORRECT_GUESSES: u32 = 5;

/// The state of one game: the secret word, the letters guessed so far, and the
/// wrong guesses still allowed.
///
/// The guessed letters are a `Vec` used as a set: a `HashSet<char>` has no
/// key model in vstd, so nothing could be proved of its lookups.
/// `check_guess` turns away letters already guessed.
pub struct Game {
    pub secret: Vec<char>,
    pub guessed: Vec<char>,
    pub guesses_left: u32,
}

/// How a line typed as a guess was judged.
#[derive(Clone, Copy, Debug, PartialEq, Eq, Structural)]
pub enum GuessCheck {
    /// A new letter, lower-cased.
    Accepted(char),
    /// Not exactly one character.
    NotOneChar,
    /// One character, but not an ASCII letter.
    NotLetter,
    /// A letter guessed before.
    AlreadyGuessed,
}

/// `c` with ASCII upper case mapped to lower case.
pub open spec fn lower(c: char) -> char {
    if 'A' <= c && c <= 'Z' {
        ((c as u8) + 32) as char
    } else {
        c
    }
}

pub open spec fn is_letter(c: char) -> bool {
    ('a' <= c && c <= 'z') || ('A' <= c && c <= 'Z')
}

/// What the player sees at position `i`: the letter once guessed, else `_`.
pub open spec fn shown(secret: Seq<char>, guessed: Seq<char>, i: int) -> char {
    if guessed.contains(secret[i]) {
        secret[i]
    } else {
        '_'
    }
}

pub fn contains_char(v: &Vec<char>, c: char) -> (r: bool)
    ensures
        r == v@.contains(c),
{
    let mut i: usize = 0;
    while i < v.len()
        invariant
            i <= v.len(),
            forall|j: int| 0 <= j < i ==> v@[j] != c,
        decreases v.len() - i,
    {
        if v[i] == c {
            return true;
        }
        i = i + 1;
    }
    false
}

impl Game {
    /// A new game on `secret`, with no letter guessed.
    pub fn new(secret: Vec<char>) -> (r: Game)
        ensures
            r.secret == secret,
            r.guessed@ == Seq::<char>::empty(),
            r.guesses_left == NUM_INCORRECT_GUESSES,
    {
        Game { secret, guessed: Vec::new(), guesses_left: NUM_INCORRECT_GUESSES }
    }

    /// The partly filled word.
    pub fn template(&self) -> (r: Vec<char>)
        ensures
            r@.len() == self.secret@.len(),
            forall|i: int| 0 <= i < r@.len() ==> #[trigger] r@[i] == shown(
                self.secret@,
                self.guessed@,
                i,
            ),
    {
        let mut t: Vec<char> = Vec::new();
        let mut i: usize = 0;
        while i < self.secret.len()
            invariant
                i <= self.secret@.len(),
                t@.len() == i,
                forall|j: int| 0 <= j < i ==> #[trigger] t@[j] == shown(
                    self.secret@,
                    self.guessed@,
                    j,
                ),
            decreases self.secret.len() - i,
        {
            let ch = self.secret[i];
            if contains_char(&self.guessed, ch) {
                t.push(ch);
            } else {
                t.push('_');
            }
            i = i + 1;
        }
        t
    }

    /// The game is won once the partly filled word has no `_` left.
    pub fn is_won(&self) -> (r: bool)
        ensures
            r == forall|i: int| 0 <= i < self.secret@.len() ==> #[trigger] shown(
                self.secret@,
                self.guessed@,
                i,
            ) != '_',
    {
        let t = self.template();
        let r = !contains_char(&t, '_');
        proof {
            if r {
                assert forall|i: int| 0 <= i < self.secret@.len() implies #[trigger] shown(
                    self.secret@,
                    self.guessed@,
                    i,
                ) != '_' by {
                    assert(t@[i] == shown(self.secret@, self.guessed@, i));
                    if t@[i] == '_' {
                        assert(t@.contains('_'));
                    }
                }
            } else {
                let k = choose|k: int| 0 <= k < t@.len() && t@[k] == '_';
                assert(shown(self.secret@, self.guessed@, k) == '_');
            }
        }
        r
    }

    /// The game is lost once no wrong guess is left.
    pub fn is_lost(&self) -> (r: bool)
        ensures
            r == (self.guesses_left == 0),
    {
        self.guesses_left == 0
    }

    /// Judges a typed guess (already trimmed of surrounding blanks).
    pub fn check_guess(&self, input: &str) -> (r: GuessCheck)
        ensures
            input@.len() != 1 ==> r == GuessCheck::NotOneChar,
            input@.len() == 1 ==> r == (if !is_letter(input@[0]) {
                GuessCheck::NotLetter
            } else if self.guessed@.contains(lower(input@[0])) {
                GuessCheck::AlreadyGuessed
            } else {
                GuessCheck::Accepted(lower(input@[0]))
            }),
    {
        if input.unicode_len() != 1 {
            return GuessCheck::NotOneChar;
        }
        let c = input.get_char(0);
        let lc = if 'A' <= c && c <= 'Z' {
            ((c as u8) + 32) as char
        } else {
            c
        };
        if !(('a' <= c && c <= 'z') || ('A' <= c && c <= 'Z')) {
            GuessCheck::NotLetter
        } else if contains_char(&self.guessed, lc) {
            GuessCheck::AlreadyGuessed
        } else {
            GuessCheck::Accepted(lc)
        }
    }

    /// Records the guess `c`. Returns whether the secret word holds it; a
    /// wrong guess uses up one of the remaining ones.
    pub fn apply_guess(&mut self, c: char) -> (r: bool)
        requires
            old(self).guesses_left > 0,
        ensures
            r == old(self).secret@.contains(c),
            final(self).secret == old(self).secret,
            final(self).guessed@ == old(self).guessed@.push(c),
            final(self).guesses_left == (if r {
                old(self).guesses_left
            } else {
                (old(self).guesses_left - 1) as u32
            }),
    {
        self.guessed.push(c);
        if contains_char(&self.secret, c) {
            true
        } else {
            self.guesses_left = self.guesses_left - 1;
            false
        }
    }
}

} // verus!
