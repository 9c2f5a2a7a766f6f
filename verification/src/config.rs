//! The configuration as it is supplied, and the patterns built from it.
use vstd::prelude::*;
use vstd::string::*;

verus! {

/// The configuration of one transform. A field that is absent stands for
/// an empty title, no names, and compact output.
///
/// `methods` lists object names with the method names tracked on each; the
/// object name `this` stands for the implicit receiver.
#[derive(Clone, Debug)]
pub struct Config {
    pub title: Option<String>,
    pub functions: Option<Vec<String>>,
    pub methods: Option<Vec<(String, Vec<String>)>>,
    pub dynamic_imports: Option<Vec<String>>,
    pub pretty: Option<bool>,
}

/// What a method is called on: the implicit receiver, or an object with a
/// name. An object that happens to be named `this` is no implicit receiver.
#[derive(Debug)]
pub enum Receiver {
    This,
    Named(String),
}

/// The method names tracked on one receiver.
#[derive(Debug)]
pub struct MethodPattern {
    pub receiver: Receiver,
    pub methods: Vec<String>,
}

/// The patterns that calls are matched against. Every match is exact and
/// case-sensitive.
#[derive(Debug)]
pub struct Patterns {
    pub title: String,
    pub functions: Vec<String>,
    pub methods: Vec<MethodPattern>,
    pub dynamic_imports: Vec<String>,
    pub pretty: bool,
}

/// The content of a [`Receiver`].
pub enum ReceiverView {
    This,
    Named(Seq<char>),
}

/// The patterns as sets: what is tracked, whatever the order and the
/// number of times it was listed.
#[verifier::ext_equal]
pub struct PatternSet {
    /// The label of the emitted annotation.
    pub title: Seq<char>,
    /// The names that match a bare call.
    pub functions: Set<Seq<char>>,
    /// The pairs of receiver and method name that match a method call.
    pub methods: Set<(ReceiverView, Seq<char>)>,
    /// The keys whose truthy value in a magic comment records a dynamic
    /// import.
    pub import_keys: Set<Seq<char>>,
    /// Whether the annotation is pretty-printed.
    pub pretty: bool,
}

/// Whether a list of names holds a name.
pub open spec fn contains_text(names: Seq<String>, name: Seq<char>) -> bool {
    exists|i: int| 0 <= i < names.len() && (#[trigger] names[i])@ == name
}

/// The names of a list, as a set.
pub open spec fn name_set(names: Seq<String>) -> Set<Seq<char>> {
    Set::new(|name: Seq<char>| contains_text(names, name))
}

/// The receiver that an object name of the configuration stands for: the
/// implicit receiver for `this`, else the object of that name.
pub open spec fn key_receiver(key: Seq<char>) -> ReceiverView {
    if key == "this"@ {
        ReceiverView::This
    } else {
        ReceiverView::Named(key)
    }
}

/// The name under which a receiver appears in a match record.
pub open spec fn receiver_text(r: ReceiverView) -> Seq<char> {
    match r {
        ReceiverView::This => "this"@,
        ReceiverView::Named(name) => name,
    }
}

/// Whether a pattern tracks a method on a receiver.
pub open spec fn pattern_tracks(p: MethodPattern, pair: (ReceiverView, Seq<char>)) -> bool {
    p.receiver@ == pair.0 && contains_text(p.methods@, pair.1)
}

/// Whether an entry of the configuration tracks a method on a receiver.
pub open spec fn entry_tracks(entry: (String, Vec<String>), pair: (ReceiverView, Seq<char>)) -> bool {
    key_receiver(entry.0@) == pair.0 && contains_text(entry.1@, pair.1)
}

/// The strings of an optional list, none for an absent one.
pub open spec fn listed(names: Option<Vec<String>>) -> Seq<String> {
    match names {
        Some(v) => v@,
        None => Seq::empty(),
    }
}

/// The entries of the optional method table, none for an absent one.
pub open spec fn method_entries(methods: Option<Vec<(String, Vec<String>)>>) -> Seq<
    (String, Vec<String>),
> {
    match methods {
        Some(v) => v@,
        None => Seq::empty(),
    }
}

impl View for Receiver {
    type V = ReceiverView;

    open spec fn view(&self) -> ReceiverView {
        match self {
            Receiver::This => ReceiverView::This,
            Receiver::Named(name) => ReceiverView::Named(name@),
        }
    }
}

impl View for Config {
    type V = PatternSet;

    /// What the configuration asks for.
    open spec fn view(&self) -> PatternSet {
        PatternSet {
            title: match self.title {
                Some(t) => t@,
                None => Seq::empty(),
            },
            functions: name_set(listed(self.functions)),
            methods: Set::new(
                |pair: (ReceiverView, Seq<char>)|
                    exists|i: int|
                        0 <= i < method_entries(self.methods).len() && entry_tracks(
                            #[trigger] method_entries(self.methods)[i],
                            pair,
                        ),
            ),
            import_keys: name_set(listed(self.dynamic_imports)),
            pretty: match self.pretty {
                Some(b) => b,
                None => false,
            },
        }
    }
}

impl View for Patterns {
    type V = PatternSet;

    open spec fn view(&self) -> PatternSet {
        PatternSet {
            title: self.title@,
            functions: name_set(self.functions@),
            methods: Set::new(
                |pair: (ReceiverView, Seq<char>)|
                    exists|i: int|
                        0 <= i < self.methods@.len() && pattern_tracks(
                            #[trigger] self.methods@[i],
                            pair,
                        ),
            ),
            import_keys: name_set(self.dynamic_imports@),
            pretty: self.pretty,
        }
    }
}

/// A copy of a list of strings.
pub fn clone_strings(names: &Vec<String>) -> (r: Vec<String>)
    ensures
        r@ == names@,
{
    let mut out: Vec<String> = Vec::new();
    let mut i: usize = 0;
    while i < names.len()
        invariant
            i <= names.len(),
            out@ == names@.take(i as int),
        decreases names.len() - i,
    {
        out.push(names[i].clone());
        assert(out@ =~= names@.take(i + 1));
        i = i + 1;
    }
    assert(names@.take(i as int) =~= names@);
    out
}

/// Whether a list of names holds a name.
pub fn contains_name(names: &Vec<String>, name: &String) -> (r: bool)
    ensures
        r == contains_text(names@, name@),
{
    let mut i: usize = 0;
    while i < names.len()
        invariant
            i <= names.len(),
            forall|j: int| 0 <= j < i ==> (#[trigger] names@[j])@ != name@,
        decreases names.len() - i,
    {
        if names[i] == *name {
            return true;
        }
        i = i + 1;
    }
    false
}

impl Receiver {
    /// The receiver that an object name of the configuration stands for.
    pub fn from_key(key: &String) -> (r: Receiver)
        ensures
            r@ == key_receiver(key@),
    {
        if *key == String::from_str("this") {
            Receiver::This
        } else {
            Receiver::Named(key.clone())
        }
    }

    /// Whether two receivers are the same.
    pub fn same(&self, other: &Receiver) -> (r: bool)
        ensures
            r == (self@ == other@),
    {
        match self {
            Receiver::This => match other {
                Receiver::This => true,
                Receiver::Named(_) => false,
            },
            Receiver::Named(x) => match other {
                Receiver::This => false,
                Receiver::Named(y) => *x == *y,
            },
        }
    }

    /// The name under which the receiver appears in a match record.
    pub fn name(&self) -> (r: String)
        ensures
            r@ == receiver_text(self@),
    {
        match self {
            Receiver::This => String::from_str("this"),
            Receiver::Named(name) => name.clone(),
        }
    }
}

impl Patterns {
    /// Builds the patterns of a configuration. This never fails: what the
    /// configuration leaves out is empty.
    pub fn new(config: &Config) -> (r: Patterns)
        ensures
            r@ == config@,
    {
        let title = match &config.title {
            Some(t) => t.clone(),
            None => String::new(),
        };
        let functions = match &config.functions {
            Some(names) => clone_strings(names),
            None => Vec::new(),
        };
        let dynamic_imports = match &config.dynamic_imports {
            Some(names) => clone_strings(names),
            None => Vec::new(),
        };
        let pretty = match config.pretty {
            Some(b) => b,
            None => false,
        };
        let ghost entries = method_entries(config.methods);
        let mut methods: Vec<MethodPattern> = Vec::new();
        match &config.methods {
            Some(listed) => {
                let mut i: usize = 0;
                while i < listed.len()
                    invariant
                        i <= listed.len(),
                        methods@.len() == i,
                        forall|j: int|
                            0 <= j < i ==> {
                                &&& (#[trigger] methods@[j]).receiver@ == key_receiver(
                                    listed@[j].0@,
                                )
                                &&& methods@[j].methods@ == listed@[j].1@
                            },
                    decreases listed.len() - i,
                {
                    let receiver = Receiver::from_key(&listed[i].0);
                    let names = clone_strings(&listed[i].1);
                    methods.push(MethodPattern { receiver, methods: names });
                    i = i + 1;
                }
            },
            None => {},
        }
        let r = Patterns { title, functions, methods, dynamic_imports, pretty };
        proof {
            assert(r.methods@.len() == entries.len());
            assert forall|pair: (ReceiverView, Seq<char>)|
                r@.methods.contains(pair) <==> config@.methods.contains(pair) by {
                if r@.methods.contains(pair) {
                    let i = choose|i: int|
                        0 <= i < r.methods@.len() && pattern_tracks(#[trigger] r.methods@[i], pair);
                    assert(entry_tracks(entries[i], pair));
                }
                if config@.methods.contains(pair) {
                    let i = choose|i: int|
                        0 <= i < entries.len() && entry_tracks(#[trigger] entries[i], pair);
                    assert(pattern_tracks(r.methods@[i], pair));
                }
            }
            assert(r@.methods =~= config@.methods);
        }
        r
    }

    /// Whether a bare call of this name is tracked.
    pub fn is_tracked_function(&self, name: &String) -> (r: bool)
        ensures
            r == self@.functions.contains(name@),
    {
        contains_name(&self.functions, name)
    }

    /// Whether a call of this method on this receiver is tracked.
    pub fn is_tracked_method(&self, receiver: &Receiver, method: &String) -> (r: bool)
        ensures
            r == self@.methods.contains((receiver@, method@)),
    {
        let mut i: usize = 0;
        while i < self.methods.len()
            invariant
                i <= self.methods.len(),
                forall|j: int|
                    0 <= j < i ==> !pattern_tracks(
                        #[trigger] self.methods@[j],
                        (receiver@, method@),
                    ),
            decreases self.methods.len() - i,
        {
            if self.methods[i].receiver.same(receiver) && contains_name(
                &self.methods[i].methods,
                method,
            ) {
                return true;
            }
            i = i + 1;
        }
        false
    }

    /// The method names tracked on a receiver; none where the receiver is
    /// not configured.
    pub fn tracked_methods_for(&self, receiver: &Receiver) -> (r: Vec<String>)
        ensures
            forall|method: Seq<char>|
                contains_text(r@, method) <==> self@.methods.contains((receiver@, method)),
    {
        let mut out: Vec<String> = Vec::new();
        let mut i: usize = 0;
        while i < self.methods.len()
            invariant
                i <= self.methods.len(),
                forall|method: Seq<char>|
                    contains_text(out@, method) <==> (exists|j: int|
                        0 <= j < i && pattern_tracks(
                            #[trigger] self.methods@[j],
                            (receiver@, method),
                        )),
            decreases self.methods.len() - i,
        {
            if self.methods[i].receiver.same(receiver) {
                let names = &self.methods[i].methods;
                let ghost before = out@;
                let mut k: usize = 0;
                while k < names.len()
                    invariant
                        k <= names.len(),
                        out@ == before + names@.take(k as int),
                    decreases names.len() - k,
                {
                    out.push(names[k].clone());
                    assert(out@ =~= before + names@.take(k + 1));
                    k = k + 1;
                }
                assert(names@.take(k as int) =~= names@);
                assert forall|method: Seq<char>|
                    contains_text(out@, method) <==> (exists|j: int|
                        0 <= j < i + 1 && pattern_tracks(
                            #[trigger] self.methods@[j],
                            (receiver@, method),
                        )) by {
                    if contains_text(out@, method) {
                        let w = choose|w: int| 0 <= w < out@.len() && (#[trigger] out@[w])@ == method;
                        if w < before.len() {
                            assert(before[w]@ == method);
                            assert(contains_text(before, method));
                        } else {
                            assert(names@[w - before.len()]@ == method);
                            assert(pattern_tracks(self.methods@[i as int], (receiver@, method)));
                        }
                    }
                    if exists|j: int|
                        0 <= j < i + 1 && pattern_tracks(
                            #[trigger] self.methods@[j],
                            (receiver@, method),
                        ) {
                        let j = choose|j: int|
                            0 <= j < i + 1 && pattern_tracks(
                                #[trigger] self.methods@[j],
                                (receiver@, method),
                            );
                        if j < i {
                            assert(contains_text(before, method));
                            let w = choose|w: int|
                                0 <= w < before.len() && (#[trigger] before[w])@ == method;
                            assert(out@[w]@ == method);
                        } else {
                            let w = choose|w: int|
                                0 <= w < names@.len() && (#[trigger] names@[w])@ == method;
                            assert(out@[before.len() + w]@ == method);
                        }
                    }
                }
            }
            i = i + 1;
        }
        out
    }

    /// Whether a key of a magic comment is one that records a dynamic import.
    pub fn is_dynamic_import_key(&self, key: &String) -> (r: bool)
        ensures
            r == self@.import_keys.contains(key@),
    {
        contains_name(&self.dynamic_imports, key)
    }
}

} // verus!
