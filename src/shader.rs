use vstd::prelude::*;

verus! {

/// Path of the default fragment shader.
pub const DEFAULT_FRAGMENT: &'static str = "Shaders/F_UnlitSprite.shader";

/// Path of the default vertex shader.
pub const DEFAULT_VERTEX: &'static str = "Shaders/V_Standard.shader";

/// Whether no name occurs twice among the entries.
pub open spec fn names_unique(s: Seq<(Seq<char>, Seq<char>)>) -> bool {
    forall|i: int, j: int| 0 <= i < j < s.len() ==> s[i].0 != s[j].0
}

/// Shader programs loaded once, looked up by name (the path they were read
/// from), so that nothing is read from disk while the game runs.
pub struct ShaderModule {
    _programLookUp: Vec<(String, String)>,
}

impl ShaderModule {
    /// The (name, source) pairs, in order of loading.
    pub closed spec fn entries(&self) -> Seq<(Seq<char>, Seq<char>)> {
        self._programLookUp@.map_values(|e: (String, String)| (e.0@, e.1@))
    }

    pub open spec fn wf(&self) -> bool {
        names_unique(self.entries())
    }

    /// Whether a shader named `name` is loaded.
    pub open spec fn has(&self, name: Seq<char>) -> bool {
        exists|i: int| 0 <= i < self.entries().len() && #[trigger] self.entries()[i].0 == name
    }

    /// The source loaded under `name`.
    pub open spec fn source_of(&self, name: Seq<char>) -> Seq<char> {
        let i = choose|i: int| 0 <= i < self.entries().len() && #[trigger] self.entries()[i].0 == name;
        self.entries()[i].1
    }

    /// An empty module.
    pub fn Create() -> (r: Self)
        ensures
            r.wf(),
            r.entries().len() == 0,
    {
        let r = ShaderModule { _programLookUp: Vec::new() };
        proof {
            assert(r.entries() =~= Seq::<(Seq<char>, Seq<char>)>::empty());
        }
        r
    }

    fn FindIndex(&self, name: &String) -> (r: Option<usize>)
        ensures
            match r {
                Some(i) => i < self.entries().len() && self.entries()[i as int].0 == name@,
                None => !self.has(name@),
            },
    {
        let mut i: usize = 0;
        while i < self._programLookUp.len()
            invariant
                i <= self.entries().len(),
                forall|k: int| 0 <= k < i ==> self.entries()[k].0 != name@,
            decreases self.entries().len() - i,
        {
            if self._programLookUp[i].0 == *name {
                return Some(i);
            }
            i = i + 1;
        }
        None
    }

    /// Loads `source` under `name`, replacing what was loaded under it.
    pub fn AddShader(&mut self, name: String, source: String)
        requires
            old(self).wf(),
        ensures
            final(self).wf(),
            final(self).has(name@),
            final(self).source_of(name@) == source@,
            forall|n: Seq<char>|
                n != name@ ==> (final(self).has(n) == old(self).has(n) && (old(self).has(n)
                    ==> final(self).source_of(n) == old(self).source_of(n))),
    {
        let ghost before = self.entries();
        let ghost key = name@;
        let ghost value = source@;
        match self.FindIndex(&name) {
            Some(i) => {
                self._programLookUp.set(i, (name, source));
                proof {
                    assert(self.entries() =~= before.update(i as int, (key, value)));
                    self.lemma_lookup(i as int);
                }
            },
            None => {
                self._programLookUp.push((name, source));
                proof {
                    assert(self.entries() =~= before.push((key, value)));
                    assert forall|a: int, b: int| 0 <= a < b < self.entries().len() implies self.entries()[a].0
                        != self.entries()[b].0 by {
                        if b == before.len() {
                            assert(before[a] == self.entries()[a]);
                        }
                    }
                    self.lemma_lookup(before.len() as int);
                }
            },
        }
        proof {
            assert forall|n: Seq<char>| n != key implies (self.has(n) == old(self).has(n) && (old(
                self,
            ).has(n) ==> self.source_of(n) == old(self).source_of(n))) by {
                if old(self).has(n) {
                    let k = choose|k: int| 0 <= k < before.len() && #[trigger] before[k].0 == n;
                    assert(self.entries()[k] == before[k]);
                    old(self).lemma_lookup(k);
                    self.lemma_lookup(k);
                }
                if self.has(n) {
                    let k = choose|k: int|
                        0 <= k < self.entries().len() && #[trigger] self.entries()[k].0 == n;
                    assert(k < before.len() && before[k] == self.entries()[k]);
                }
            }
        }
    }

    /// Under unique names, the source of the name at `i` is the one at `i`.
    proof fn lemma_lookup(&self, i: int)
        requires
            self.wf(),
            0 <= i < self.entries().len(),
        ensures
            self.has(self.entries()[i].0),
            self.source_of(self.entries()[i].0) == self.entries()[i].1,
    {
        let name = self.entries()[i].0;
        assert(self.entries()[i].0 == name);
        let k = choose|k: int| 0 <= k < self.entries().len() && #[trigger] self.entries()[k].0 == name;
        if k != i {
            if k < i {
                assert(self.entries()[k].0 != self.entries()[i].0);
            } else {
                assert(self.entries()[i].0 != self.entries()[k].0);
            }
        }
    }

    /// The source of the shader named `shaderName`, which must be loaded.
    pub fn GetShader(&self, shaderName: &str) -> (r: String)
        requires
            self.wf(),
            self.has(shaderName@),
        ensures
            r@ == self.source_of(shaderName@),
    {
        let name = shaderName.to_owned();
        let i = self.FindIndex(&name).unwrap();
        proof {
            self.lemma_lookup(i as int);
        }
        self._programLookUp[i].1.clone()
    }
}

} // verus!
