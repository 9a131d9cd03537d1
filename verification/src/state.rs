//! State shared between restarts, and a wrapper that hands every change of a value to a
//! save function.
use vstd::prelude::*;

verus! {

/// What the bot remembers between restarts.
pub struct State {
    pub current_factorio_version: String,
    pub latest_factorio_version: String,
    pub last_chat_message: String,
    pub latest_fff: String,
}

/// A `State` with its texts as character sequences.
pub struct StateView {
    pub current_factorio_version: Seq<char>,
    pub latest_factorio_version: Seq<char>,
    pub last_chat_message: Seq<char>,
    pub latest_fff: Seq<char>,
}

impl View for State {
    type V = StateView;

    open spec fn view(&self) -> StateView {
        StateView {
            current_factorio_version: self.current_factorio_version@,
            latest_factorio_version: self.latest_factorio_version@,
            last_chat_message: self.last_chat_message@,
            latest_fff: self.latest_fff@,
        }
    }
}

impl Default for State {
    /// The state of a first start: every field empty.
    fn default() -> (r: Self)
        ensures
            r.current_factorio_version@ == Seq::<char>::empty(),
            r.latest_factorio_version@ == Seq::<char>::empty(),
            r.last_chat_message@ == Seq::<char>::empty(),
            r.latest_fff@ == Seq::<char>::empty(),
    {
        State {
            current_factorio_version: String::new(),
            latest_factorio_version: String::new(),
            last_chat_message: String::new(),
            latest_fff: String::new(),
        }
    }
}

/// Holds the save function of a `PersistedState`; it accepts every value.
pub struct Saver<T, F: Fn(&T)> {
    save_fn: F,
    value_type: core::marker::PhantomData<T>,
}

impl<T, F: Fn(&T)> Saver<T, F> {
    #[verifier::type_invariant]
    spec fn accepts_every_value(self) -> bool {
        forall|v: &T| #[trigger] self.save_fn.requires((v,))
    }

    /// The save function.
    pub closed spec fn save_fn(self) -> F {
        self.save_fn
    }
}

/// The value of a `PersistedState`, with the record of every value handed to its save
/// function, in order.
pub struct Stored<T> {
    value: T,
    saved: Ghost<Seq<T>>,
}

impl<T> Stored<T> {
    /// The value.
    pub closed spec fn value(self) -> T {
        self.value
    }

    /// The values handed to the save function so far, in order.
    pub closed spec fn saves(self) -> Seq<T> {
        self.saved@
    }
}

/// A value together with the function that persists it. Reading goes through `deref`;
/// changing it goes through the guard that `write` returns, which hands the changed value
/// to the save function when it is dropped with `ModifyGuard::drop`.
pub struct PersistedState<T, F: Fn(&T)> {
    stored: Stored<T>,
    saver: Saver<T, F>,
}

impl<T, F: Fn(&T)> PersistedState<T, F> {
    /// The value held.
    pub closed spec fn value(self) -> T {
        self.stored.value
    }

    /// The values handed to the save function so far, in order.
    pub closed spec fn saves(self) -> Seq<T> {
        self.stored.saved@
    }

    /// The function that persists the value.
    pub closed spec fn save_fn(self) -> F {
        self.saver.save_fn
    }

    /// Wraps `inner_value`; `save_fn` must accept every value. Nothing is saved.
    pub fn new(inner_value: T, save_fn: F) -> (r: Self)
        requires
            forall|v: &T| #[trigger] save_fn.requires((v,)),
        ensures
            r.value() == inner_value,
            r.saves() == Seq::<T>::empty(),
            r.save_fn() == save_fn,
    {
        PersistedState {
            stored: Stored { value: inner_value, saved: Ghost(Seq::empty()) },
            saver: Saver { save_fn, value_type: core::marker::PhantomData },
        }
    }

    /// Opens the value for changes; nothing is saved by opening. The guard starts with the
    /// current value and record of saves, and whatever value and saves the guard holds when
    /// its borrow ends are those of `self` from then on.
    pub fn write(&mut self) -> (g: ModifyGuard<'_, T, F>)
        ensures
            g.value() == old(self).value(),
            g.saves() == old(self).saves(),
            final(g.stored()).value() == final(self).value(),
            final(g.stored()).saves() == final(self).saves(),
            g.save_fn() == old(self).save_fn(),
            final(self).save_fn() == old(self).save_fn(),
    {
        ModifyGuard { stored: &mut self.stored, saver: &self.saver }
    }
}

impl<T, F: Fn(&T)> core::ops::Deref for PersistedState<T, F> {
    type Target = T;

    /// The value held; nothing is saved.
    fn deref(&self) -> (r: &T)
        ensures
            *r == self.value(),
    {
        &self.stored.value
    }
}

/// Write access to the value of a `PersistedState`.
///
/// The change is saved only by calling `ModifyGuard::drop` (a method of this type, not the
/// `Drop` trait): a guard that merely goes out of scope leaves the new value in the state
/// without handing it to the save function.
pub struct ModifyGuard<'a, T, F: Fn(&T)> {
    stored: &'a mut Stored<T>,
    saver: &'a Saver<T, F>,
}

impl<'a, T, F: Fn(&T)> ModifyGuard<'a, T, F> {
    /// The value as the guard holds it now.
    pub closed spec fn value(self) -> T {
        self.stored.value
    }

    /// The values handed to the save function so far, in order.
    pub closed spec fn saves(self) -> Seq<T> {
        self.stored.saved@
    }

    /// The borrowed value and record of saves.
    pub closed spec fn stored(self) -> &'a mut Stored<T> {
        self.stored
    }

    /// The save function of the state this guard was opened on.
    pub closed spec fn save_fn(self) -> F {
        self.saver.save_fn
    }

    /// Mutable access to the value: what is written through the result is what the guard
    /// holds afterwards; nothing is saved.
    pub fn deref_mut(&mut self) -> (r: &mut T)
        ensures
            *r == old(self).value(),
            final(self).value() == *final(r),
            final(self).saves() == old(self).saves(),
            *final(final(self).stored()) == *final(old(self).stored()),
            final(self).save_fn() == old(self).save_fn(),
    {
        &mut self.stored.value
    }

    /// Ends the change: the value is handed to the save function, once, is added to the
    /// record of saves, and stays in the state.
    pub fn drop(self)
        ensures
            final(self.stored()).value() == self.value(),
            final(self.stored()).saves() == self.saves().push(self.value()),
            call_ensures(self.save_fn(), (&self.value(),), ()),
    {
        let saver = self.saver;
        proof {
            use_type_invariant(saver);
        }
        (saver.save_fn)(&self.stored.value);
        let ghost saved = self.stored.saved@.push(self.stored.value);
        self.stored.saved = Ghost(saved);
    }
}

impl<'a, T, F: Fn(&T)> core::ops::Deref for ModifyGuard<'a, T, F> {
    type Target = T;

    /// The value as the guard holds it now; nothing is saved.
    fn deref(&self) -> (r: &T)
        ensures
            *r == self.value(),
    {
        &self.stored.value
    }
}

} // verus!
