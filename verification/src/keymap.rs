use vstd::prelude::*;

use crate::chars::{str_chars, string_from_chars};
use crate::event::{KeyCode, KeyEvent, KeyModifiers};

verus! {

/// Stable application-defined command identifier used by [`KeyMap`].
#[derive(Clone, Debug, PartialEq, Eq, Hash)]
pub struct CommandId(String);

impl CommandId {
    /// The identifier's text.
    pub closed spec fn spec_text(&self) -> Seq<char> {
        self.0@
    }

    pub fn new(id: &str) -> (c: Self)
        ensures
            c.spec_text() == id@,
    {
        let chars = str_chars(id);
        CommandId(string_from_chars(chars.as_slice()))
    }

    pub fn as_str(&self) -> (s: &str)
        ensures
            s@ == self.spec_text(),
    {
        self.0.as_str()
    }

    /// A copy of this identifier with the same text.
    pub fn duplicate(&self) -> (c: Self)
        ensures
            c.spec_text() == self.spec_text(),
    {
        CommandId(self.0.clone())
    }
}

/// One exact key/modifier to command mapping.
#[derive(Clone, Debug, PartialEq, Eq)]
pub struct KeyBinding {
    pub code: KeyCode,
    pub modifiers: KeyModifiers,
    pub command: CommandId,
}

impl KeyBinding {
    pub fn new(code: KeyCode, modifiers: KeyModifiers, command: CommandId) -> (b: Self)
        ensures
            b == (KeyBinding { code, modifiers, command }),
    {
        KeyBinding { code, modifiers, command }
    }
}

/// Application-owned exact keybinding resolver.
///
/// Rebinding replaces an exact key/modifier pair; dispatch remains application policy.
#[derive(Clone, Debug, PartialEq, Eq)]
pub struct KeyMap {
    bindings: Vec<KeyBinding>,
}

impl KeyMap {
    /// The bindings in the order they were first bound.
    pub closed spec fn spec_bindings(&self) -> Seq<KeyBinding> {
        self.bindings@
    }

    /// No key/modifier pair is bound twice.
    pub open spec fn wf(&self) -> bool {
        forall|i: int, j: int|
            0 <= i < j < self.spec_bindings().len() ==> !(#[trigger] self.spec_bindings()[i].code
                == #[trigger] self.spec_bindings()[j].code && self.spec_bindings()[i].modifiers
                == self.spec_bindings()[j].modifiers)
    }

    /// The command bound to `code` with `modifiers`, if any.
    pub open spec fn lookup(&self, code: KeyCode, modifiers: KeyModifiers) -> Option<Seq<char>> {
        if exists|i: int|
            0 <= i < self.spec_bindings().len() && #[trigger] self.spec_bindings()[i].code == code
                && self.spec_bindings()[i].modifiers == modifiers {
            let i = choose|i: int|
                0 <= i < self.spec_bindings().len() && #[trigger] self.spec_bindings()[i].code
                    == code && self.spec_bindings()[i].modifiers == modifiers;
            Some(self.spec_bindings()[i].command.spec_text())
        } else {
            None
        }
    }

    pub fn new() -> (m: Self)
        ensures
            m.wf(),
            m.spec_bindings().len() == 0,
    {
        KeyMap { bindings: Vec::new() }
    }

    fn find(&self, code: KeyCode, modifiers: KeyModifiers) -> (r: Option<usize>)
        requires
            self.wf(),
        ensures
            match r {
                Some(i) => i < self.spec_bindings().len() && self.spec_bindings()[i as int].code
                    == code && self.spec_bindings()[i as int].modifiers == modifiers,
                None => forall|j: int|
                    0 <= j < self.spec_bindings().len() ==> !(#[trigger] self.spec_bindings()[j].code
                        == code && self.spec_bindings()[j].modifiers == modifiers),
            },
    {
        let mut i: usize = 0;
        while i < self.bindings.len()
            invariant
                i <= self.bindings@.len(),
                forall|j: int|
                    0 <= j < i ==> !(#[trigger] self.bindings@[j].code == code
                        && self.bindings@[j].modifiers == modifiers),
            decreases self.bindings@.len() - i,
        {
            if self.bindings[i].code == code && self.bindings[i].modifiers == modifiers {
                return Some(i);
            }
            i = i + 1;
        }
        None
    }

    /// Rebinding an exact key/modifier pair replaces it and returns its old command.
    pub fn bind(&mut self, code: KeyCode, modifiers: KeyModifiers, command: CommandId) -> (r:
        Option<CommandId>)
        requires
            old(self).wf(),
        ensures
            final(self).wf(),
            final(self).lookup(code, modifiers) == Some(command.spec_text()),
            r matches Some(c) ==> old(self).lookup(code, modifiers) == Some(c.spec_text()),
            r is None <==> old(self).lookup(code, modifiers) is None,
            forall|c: KeyCode, m: KeyModifiers|
                !(c == code && m == modifiers) ==> #[trigger] final(self).lookup(c, m) == old(self).lookup(c, m),
    {
        match self.find(code, modifiers) {
            Some(i) => {
                let previous = self.bindings[i].command.duplicate();
                proof {
                    assert(self.spec_bindings()[i as int].code == code);
                }
                self.bindings.set(i, KeyBinding::new(code, modifiers, command));
                proof {
                    self.lemma_lookup_at(code, modifiers, i as int);
                    old(self).lemma_lookup_at(code, modifiers, i as int);
                    assert forall|c: KeyCode, m: KeyModifiers|
                        !(c == code && m == modifiers) implies #[trigger] self.lookup(c, m) == old(self).lookup(c, m) by {
                        old(self).lemma_lookup_same(*self, c, m, i as int);
                    }
                }
                Some(previous)
            },
            None => {
                self.bindings.push(KeyBinding::new(code, modifiers, command));
                proof {
                    let n = self.spec_bindings().len() - 1;
                    self.lemma_lookup_at(code, modifiers, n);
                    assert forall|c: KeyCode, m: KeyModifiers|
                        !(c == code && m == modifiers) implies #[trigger] self.lookup(c, m) == old(self).lookup(c, m) by {
                        old(self).lemma_lookup_same(*self, c, m, n);
                    }
                }
                None
            },
        }
    }

    /// The command bound to the key's exact code and modifiers.
    pub fn resolve(&self, key: KeyEvent) -> (r: Option<&CommandId>)
        requires
            self.wf(),
        ensures
            match r {
                Some(c) => self.lookup(key.code, key.modifiers) == Some(c.spec_text()),
                None => self.lookup(key.code, key.modifiers) is None,
            },
    {
        match self.find(key.code, key.modifiers) {
            Some(i) => {
                proof {
                    self.lemma_lookup_at(key.code, key.modifiers, i as int);
                }
                Some(&self.bindings[i].command)
            },
            None => None,
        }
    }

    proof fn lemma_lookup_at(&self, code: KeyCode, modifiers: KeyModifiers, i: int)
        requires
            self.wf(),
            0 <= i < self.spec_bindings().len(),
            self.spec_bindings()[i].code == code,
            self.spec_bindings()[i].modifiers == modifiers,
        ensures
            self.lookup(code, modifiers) == Some(self.spec_bindings()[i].command.spec_text()),
    {
        let j = choose|j: int|
            0 <= j < self.spec_bindings().len() && #[trigger] self.spec_bindings()[j].code == code
                && self.spec_bindings()[j].modifiers == modifiers;
        if j < i {
            assert(!(self.spec_bindings()[j].code == self.spec_bindings()[i].code
                && self.spec_bindings()[j].modifiers == self.spec_bindings()[i].modifiers));
        } else if i < j {
            assert(!(self.spec_bindings()[i].code == self.spec_bindings()[j].code
                && self.spec_bindings()[i].modifiers == self.spec_bindings()[j].modifiers));
        }
    }

    /// Lookups of other keys agree when `other` differs from `self` only at index `n` (replaced
    /// or appended) and the binding there is not for `(c, m)`.
    proof fn lemma_lookup_same(&self, other: KeyMap, c: KeyCode, m: KeyModifiers, n: int)
        requires
            self.wf(),
            other.wf(),
            0 <= n < other.spec_bindings().len(),
            other.spec_bindings().len() == self.spec_bindings().len() || other.spec_bindings().len()
                == self.spec_bindings().len() + 1,
            other.spec_bindings().len() == self.spec_bindings().len() + 1 ==> n
                == self.spec_bindings().len(),
            forall|j: int|
                0 <= j < self.spec_bindings().len() && j != n ==> #[trigger] other.spec_bindings()[j]
                    == self.spec_bindings()[j],
            !(other.spec_bindings()[n].code == c && other.spec_bindings()[n].modifiers == m),
            n < self.spec_bindings().len() ==> !(self.spec_bindings()[n].code == c
                && self.spec_bindings()[n].modifiers == m),
        ensures
            other.lookup(c, m) == self.lookup(c, m),
    {
        if exists|i: int|
            0 <= i < self.spec_bindings().len() && #[trigger] self.spec_bindings()[i].code == c
                && self.spec_bindings()[i].modifiers == m {
            let i = choose|i: int|
                0 <= i < self.spec_bindings().len() && #[trigger] self.spec_bindings()[i].code == c
                    && self.spec_bindings()[i].modifiers == m;
            self.lemma_lookup_at(c, m, i);
            assert(other.spec_bindings()[i] == self.spec_bindings()[i]);
            other.lemma_lookup_at(c, m, i);
        } else {
            assert forall|i: int|
                0 <= i < other.spec_bindings().len() implies !(#[trigger] other.spec_bindings()[i].code
                == c && other.spec_bindings()[i].modifiers == m) by {
                if i != n {
                    assert(other.spec_bindings()[i] == self.spec_bindings()[i]);
                }
            }
        }
    }
}

} // verus!
