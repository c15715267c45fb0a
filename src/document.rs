use vstd::prelude::*;

verus! {

/// One field of a configuration document: its key and, when the value is a
/// string, that string (`None` stands for a value of any other type).
pub type Field = (String, Option<String>);

/// What a field holds, as plain sequences.
pub type FieldView = (Seq<char>, Option<Seq<char>>);

pub open spec fn field_view(f: Field) -> FieldView {
    (
        f.0@,
        match f.1 {
            Some(s) => Some(s@),
            None => None,
        },
    )
}

pub open spec fn fields_view(fs: Seq<Field>) -> Seq<FieldView> {
    fs.map_values(|f: Field| field_view(f))
}

/// Admerge: each field of `layer` replaces the accumulated value of its key,
/// in order; keys the layer does not mention keep their value.
pub open spec fn admerge(
    acc: Map<Seq<char>, Option<Seq<char>>>,
    layer: Seq<FieldView>,
) -> Map<Seq<char>, Option<Seq<char>>>
    decreases layer.len(),
{
    if layer.len() == 0 {
        acc
    } else {
        admerge(acc, layer.drop_last()).insert(layer.last().0, layer.last().1)
    }
}

/// The keys of a field sequence are pairwise distinct.
pub open spec fn keys_unique(fs: Seq<FieldView>) -> bool {
    forall|i: int, j: int| 0 <= i < j < fs.len() ==> fs[i].0 != fs[j].0
}

/// A merged document: fields with distinct keys.
#[derive(Debug)]
pub struct Document {
    pub fields: Vec<Field>,
}

impl View for Document {
    type V = Map<Seq<char>, Option<Seq<char>>>;

    open spec fn view(&self) -> Map<Seq<char>, Option<Seq<char>>> {
        admerge(Map::empty(), fields_view(self.fields@))
    }
}

/// On distinct keys, a document maps each key of its fields to that field's value,
/// and holds no other key.
pub proof fn lemma_lookup(fs: Seq<FieldView>)
    requires
        keys_unique(fs),
    ensures
        forall|i: int|
            0 <= i < fs.len() ==> #[trigger] admerge(Map::empty(), fs).contains_key(fs[i].0)
                && admerge(Map::empty(), fs)[fs[i].0] == fs[i].1,
        forall|k: Seq<char>|
            #[trigger] admerge(Map::empty(), fs).contains_key(k) ==> exists|i: int|
                0 <= i < fs.len() && fs[i].0 == k,
    decreases fs.len(),
{
    if fs.len() > 0 {
        let init = fs.drop_last();
        lemma_lookup(init);
        let m = admerge(Map::empty(), fs);
        assert forall|k: Seq<char>| #[trigger] m.contains_key(k) implies exists|i: int|
            0 <= i < fs.len() && fs[i].0 == k by {
            if k != fs.last().0 {
                assert(admerge(Map::empty(), init).contains_key(k));
                let i = choose|i: int| 0 <= i < init.len() && init[i].0 == k;
                assert(init[i] == fs[i]);
                assert(fs[i].0 == k);
            } else {
                assert(fs[fs.len() - 1].0 == k);
            }
        }
        assert forall|i: int| 0 <= i < fs.len() implies #[trigger] m.contains_key(fs[i].0)
            && m[fs[i].0] == fs[i].1 by {
            if i < fs.len() - 1 {
                assert(init[i] == fs[i]);
                assert(admerge(Map::empty(), init).contains_key(init[i].0));
                assert(fs[i].0 != fs[fs.len() - 1].0);
            }
        }
    }
}

/// Replacing the field of an existing key is an insert into the document's map.
proof fn lemma_replace(fs: Seq<FieldView>, i: int, f: FieldView)
    requires
        keys_unique(fs),
        0 <= i < fs.len(),
        fs[i].0 == f.0,
    ensures
        admerge(Map::empty(), fs.update(i, f)) == admerge(Map::empty(), fs).insert(f.0, f.1),
    decreases fs.len(),
{
    let last = fs.len() - 1;
    if i == last {
        assert(fs.update(i, f).drop_last() == fs.drop_last());
        assert(admerge(Map::empty(), fs.update(i, f)) =~= admerge(Map::empty(), fs).insert(
            f.0,
            f.1,
        ));
    } else {
        assert(fs.update(i, f).drop_last() == fs.drop_last().update(i, f));
        lemma_replace(fs.drop_last(), i, f);
        assert(fs[last].0 != fs[i].0);
        assert(admerge(Map::empty(), fs.update(i, f)) =~= admerge(Map::empty(), fs).insert(
            f.0,
            f.1,
        ));
    }
}

impl Document {
    pub open spec fn wf(&self) -> bool {
        keys_unique(fields_view(self.fields@))
    }

    /// An empty document.
    pub fn new() -> (r: Document)
        ensures
            r.wf(),
            r@ == Map::<Seq<char>, Option<Seq<char>>>::empty(),
    {
        Document { fields: Vec::new() }
    }

    /// Sets `key` to `value`, replacing the field of that key if there is one.
    pub fn put(&mut self, key: String, value: Option<String>)
        requires
            old(self).wf(),
        ensures
            final(self).wf(),
            final(self)@ == old(self)@.insert(key@, field_view((key, value)).1),
    {
        let ghost fv = field_view((key, value));
        let n = self.fields.len();
        let mut i: usize = 0;
        while i < n
            invariant
                n == self.fields.len(),
                0 <= i <= n,
                self.wf(),
                *self == *old(self),
                fv == field_view((key, value)),
                forall|j: int| 0 <= j < i ==> self.fields@[j].0@ != key@,
            decreases n - i,
        {
            if self.fields[i].0 == key {
                proof {
                    let fs = fields_view(self.fields@);
                    assert(fs[i as int] == field_view(self.fields@[i as int]));
                    assert(self.fields@[i as int].0@ == key@);
                    assert(fs[i as int].0 == fv.0);
                    lemma_replace(fs, i as int, fv);
                    assert(fields_view(self.fields@.update(i as int, (key, value))) =~= fs.update(
                        i as int,
                        fv,
                    ));
                }
                self.fields[i] = (key, value);
                return;
            }
            i = i + 1;
        }
        proof {
            let fs = fields_view(self.fields@);
            assert(fields_view(self.fields@.push((key, value))) =~= fs.push(fv));
            assert(fs.push(fv).drop_last() == fs);
            assert forall|j: int| 0 <= j < fs.len() implies fs[j].0 != fv.0 by {
                assert(fs[j] == field_view(self.fields@[j]));
            }
        }
        self.fields.push((key, value));
    }

    /// Admerges `layer` into this document.
    pub fn merge_layer(&mut self, layer: &Vec<Field>)
        requires
            old(self).wf(),
        ensures
            final(self).wf(),
            final(self)@ == admerge(old(self)@, fields_view(layer@)),
    {
        let ghost start = self@;
        let mut i: usize = 0;
        while i < layer.len()
            invariant
                self.wf(),
                0 <= i <= layer.len(),
                self@ == admerge(start, fields_view(layer@).subrange(0, i as int)),
            decreases layer.len() - i,
        {
            let ghost before = fields_view(layer@).subrange(0, i as int);
            let k = layer[i].0.clone();
            let v = match &layer[i].1 {
                Some(s) => Some(s.clone()),
                None => None,
            };
            proof {
                assert(field_view((k, v)) == fields_view(layer@)[i as int]);
            }
            self.put(k, v);
            proof {
                let after = fields_view(layer@).subrange(0, i + 1);
                assert(after.drop_last() == before);
            }
            i = i + 1;
        }
        assert(fields_view(layer@).subrange(0, layer@.len() as int) == fields_view(layer@));
    }
}

} // verus!
