use vstd::prelude::*;

verus! {

use crate::chars::chars_of;
use crate::classify::{is_space, is_space_char};
use crate::command_input::{trim_left, trim_right};

/// The last character of `t` is `c`.
pub open spec fn ends_with_char(t: Seq<char>, c: char) -> bool {
    t.len() > 0 && t.last() == c
}

/// What the text around the cursor says about the kind of completion
/// wanted.  With the cursor at the very start nothing is inferred.
pub struct CompletionContext {
    pub is_member_access: bool,
    pub is_function_call: bool,
    pub is_namespace_access: bool,
    pub is_type_position: bool,
}

/// Member access: the text before the cursor ends in `.`, possibly
/// followed by whitespace.
pub open spec fn member_access_spec(s: Seq<char>, cp: int) -> bool {
    ends_with_char(s.take(cp), '.') || ends_with_char(trim_right(s.take(cp)), '.')
}

/// Function call: the text after the cursor starts with `(`, possibly
/// preceded by whitespace.
pub open spec fn function_call_spec(s: Seq<char>, cp: int) -> bool {
    trim_left(s.skip(cp)).len() > 0 && trim_left(s.skip(cp))[0] == '('
}

/// Namespace access: the text before the cursor ends in `::`.
pub open spec fn namespace_access_spec(s: Seq<char>, cp: int) -> bool {
    cp >= 2 && s[cp - 1] == ':' && s[cp - 2] == ':'
}

/// Type position: the text before the cursor, trailing whitespace
/// ignored, ends in `:` or in `->`.
pub open spec fn type_position_spec(s: Seq<char>, cp: int) -> bool {
    ends_with_char(trim_right(s.take(cp)), ':') || (trim_right(s.take(cp)).len() >= 2 && trim_right(
        s.take(cp),
    ).last() == '>' && trim_right(s.take(cp))[trim_right(s.take(cp)).len() - 2] == '-')
}

impl CompletionContext {
    /// Inspect the text around the cursor (clamped to the text's
    /// length); at position 0 every flag is off.
    pub fn analyze(text: &str, cursor_pos: usize) -> (r: Self)
        ensures
            ({
                let s = text@;
                let cp = if cursor_pos <= s.len() {
                    cursor_pos as int
                } else {
                    s.len() as int
                };
                if cp == 0 {
                    r.is_member_access == false && r.is_function_call == false
                        && r.is_namespace_access == false && r.is_type_position == false
                } else {
                    r.is_member_access == member_access_spec(s, cp) && r.is_function_call
                        == function_call_spec(s, cp) && r.is_namespace_access
                        == namespace_access_spec(s, cp) && r.is_type_position
                        == type_position_spec(s, cp)
                }
            }),
    {
        let chars = chars_of(text);
        let ghost s = chars@;
        let n = chars.len();
        let cp: usize = if cursor_pos <= n {
            cursor_pos
        } else {
            n
        };
        if cp == 0 {
            return CompletionContext {
                is_member_access: false,
                is_function_call: false,
                is_namespace_access: false,
                is_type_position: false,
            };
        }
        // End of the text before the cursor with trailing whitespace dropped.
        let mut e: usize = cp;
        proof {
            assert(s.take(cp as int).take(e as int) =~= s.take(e as int));
        }
        while e > 0 && is_space(chars[e - 1])
            invariant
                e <= cp <= n == s.len(),
                s == chars@,
                trim_right(s.take(cp as int)) == trim_right(s.take(e as int)),
            decreases e,
        {
            proof {
                assert(s.take(e as int).drop_last() =~= s.take(e as int - 1));
                assert(s.take(e as int).last() == s[e - 1]);
            }
            e = e - 1;
        }
        proof {
            if e > 0 {
                assert(s.take(e as int).last() == s[e - 1]);
                assert(trim_right(s.take(e as int)) == s.take(e as int));
            } else {
                assert(s.take(0) =~= Seq::<char>::empty());
            }
            assert(trim_right(s.take(cp as int)) == s.take(e as int));
        }
        // Start of the text after the cursor with leading whitespace dropped.
        let mut a: usize = cp;
        proof {
            assert(s.skip(cp as int).skip(0) =~= s.skip(cp as int));
            assert(s.skip(cp as int) =~= s.skip(a as int));
        }
        while a < n && is_space(chars[a])
            invariant
                cp <= a <= n == s.len(),
                s == chars@,
                trim_left(s.skip(cp as int)) == trim_left(s.skip(a as int)),
            decreases n - a,
        {
            proof {
                assert(s.skip(a as int).skip(1) =~= s.skip(a as int + 1));
                assert(s.skip(a as int)[0] == s[a as int]);
            }
            a = a + 1;
        }
        proof {
            if a < n {
                assert(s.skip(a as int)[0] == s[a as int]);
                assert(trim_left(s.skip(a as int)) == s.skip(a as int));
            } else {
                assert(s.skip(a as int) =~= Seq::<char>::empty());
            }
        }
        let member = chars[cp - 1] == '.' || (e > 0 && chars[e - 1] == '.');
        let fcall = a < n && chars[a] == '(';
        let ns = cp >= 2 && chars[cp - 1] == ':' && chars[cp - 2] == ':';
        let typo = (e > 0 && chars[e - 1] == ':') || (e >= 2 && chars[e - 1] == '>' && chars[e - 2]
            == '-');
        proof {
            assert(s.take(cp as int).last() == s[cp as int - 1]);
            if e > 0 {
                assert(s.take(e as int).last() == s[e as int - 1]);
            }
            if e >= 2 {
                assert(s.take(e as int)[e as int - 2] == s[e as int - 2]);
            }
        }
        CompletionContext {
            is_member_access: member,
            is_function_call: fcall,
            is_namespace_access: ns,
            is_type_position: typo,
        }
    }

    /// Keyword suggestions are wanted unless the cursor completes a
    /// member or namespace access.
    pub fn should_show_keywords(&self) -> (r: bool)
        ensures
            r == (!self.is_member_access && !self.is_namespace_access),
    {
        !self.is_member_access && !self.is_namespace_access
    }

    /// Type suggestions deserve a boost in a type position.
    pub fn should_boost_types(&self) -> (r: bool)
        ensures
            r == self.is_type_position,
    {
        self.is_type_position
    }

    /// Member suggestions are wanted after `.` or `::`.
    pub fn should_show_member(&self) -> (r: bool)
        ensures
            r == (self.is_member_access || self.is_namespace_access),
    {
        self.is_member_access || self.is_namespace_access
    }
}

} // verus!
