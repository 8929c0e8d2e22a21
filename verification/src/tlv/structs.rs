//! Two structures that are decoded from records: a small one, and one that
//! holds the small one, once always and once optionally.

use crate::tlv::decode::{
    lemma_skip_shrinks, lemma_structure_balanced, merge_structure, skip_value, structure_merged,
    value_skipped, DecodeEnd, DecodeError, Merged, RecordSource, StreamView, TlvDecodable,
    TlvMergeDecodable, TlvStructure,
};
use crate::tlv::value::TagValue;
use vstd::prelude::*;

verus! {

/// The number of a context-specific tag.
pub open spec fn spec_context_tag(tag: TagValue) -> Option<u8> {
    match tag {
        TagValue::ContextSpecific { tag } => Some(tag),
        _ => None,
    }
}

/// The number of a context-specific tag.
pub fn context_tag(tag: TagValue) -> (r: Option<u8>)
    ensures
        r == spec_context_tag(tag),
{
    match tag {
        TagValue::ContextSpecific { tag } => Some(tag),
        _ => None,
    }
}

/// The tag of the record on which the stream stands.
pub open spec fn current_tag(stream: StreamView) -> TagValue {
    stream.current->Some_0.tag
}

/// A structure of two fields: an optional number with context tag 1, and a
/// number with context tag 2.
#[derive(Debug, Clone, Copy, PartialEq, Eq, Structural)]
pub struct ChildStructure {
    pub some_unsigned: Option<u32>,
    pub some_signed: i16,
}

impl Default for ChildStructure {
    fn default() -> (r: Self)
        ensures
            r == (ChildStructure { some_unsigned: None, some_signed: 0 }),
    {
        ChildStructure { some_unsigned: None, some_signed: 0 }
    }
}

impl<'a> TlvStructure<'a> for ChildStructure {
    type Fields = ChildStructure;

    open spec fn fields(&self) -> ChildStructure {
        *self
    }

    open spec fn field_merged(fields: ChildStructure, stream: StreamView) -> Merged<
        ChildStructure,
    > {
        if spec_context_tag(current_tag(stream)) == Some(1u8) {
            let field = <Option<u32> as TlvMergeDecodable<'a>>::merged(fields.some_unsigned, stream);
            Merged {
                value: ChildStructure { some_unsigned: field.value, ..fields },
                stream: field.stream,
                result: field.result,
            }
        } else if spec_context_tag(current_tag(stream)) == Some(2u8) {
            let field = <i16 as TlvMergeDecodable<'a>>::merged(fields.some_signed, stream);
            Merged {
                value: ChildStructure { some_signed: field.value, ..fields },
                stream: field.stream,
                result: field.result,
            }
        } else {
            Merged {
                value: fields,
                stream: value_skipped(stream).0,
                result: Ok(value_skipped(stream).1),
            }
        }
    }

    proof fn lemma_field_taken(fields: ChildStructure, stream: StreamView) {
        lemma_skip_shrinks(stream, 1);
    }

    fn merge_field<S: RecordSource<'a>>(&mut self, tag: TagValue, source: &mut S) -> (r: Result<
        DecodeEnd,
        DecodeError,
    >) {
        let number = context_tag(tag);
        if number == Some(1) {
            self.some_unsigned.merge_decode(source)
        } else if number == Some(2) {
            self.some_signed.merge_decode(source)
        } else {
            Ok(skip_value(source))
        }
    }
}

impl<'a> TlvMergeDecodable<'a> for ChildStructure {
    type Model = ChildStructure;

    open spec fn model(&self) -> ChildStructure {
        *self
    }

    open spec fn merged(model: ChildStructure, stream: StreamView) -> Merged<ChildStructure> {
        structure_merged::<ChildStructure>(model, stream)
    }

    fn merge_decode<S: RecordSource<'a>>(&mut self, source: &mut S) -> (r: Result<
        DecodeEnd,
        DecodeError,
    >) {
        merge_structure(self, source)
    }
}

impl<'a> TlvDecodable<'a> for ChildStructure {
    open spec fn blank() -> ChildStructure {
        ChildStructure { some_unsigned: None, some_signed: 0 }
    }

    fn decode<S: RecordSource<'a>>(source: &mut S) -> (r: Result<Self, DecodeError>) {
        let mut result = ChildStructure::default();
        source.advance();
        match result.merge_decode(source) {
            Err(e) => Err(e),
            Ok(DecodeEnd::StreamFinished) => Err(DecodeError::InvalidNesting),
            Ok(DecodeEnd::DataConsumed) => match source.next() {
                Some(_) => Err(DecodeError::InvalidNesting),
                None => Ok(result),
            },
        }
    }
}

/// A structure of five fields, with the context tags 1 to 5: an optional
/// number, a text, a number, a child structure, and an optional child
/// structure. The text is borrowed from the buffer that the records borrow
/// from.
#[derive(Debug, Clone, Copy)]
pub struct TopStructure<'a> {
    pub some_nr: Option<u32>,
    pub some_str: &'a str,
    pub some_signed: i16,
    pub child: ChildStructure,
    pub child2: Option<ChildStructure>,
}

/// What a `TopStructure` stands for.
pub struct TopFields {
    pub some_nr: Option<u32>,
    pub some_str: Seq<char>,
    pub some_signed: i16,
    pub child: ChildStructure,
    pub child2: Option<ChildStructure>,
}

impl<'a> Default for TopStructure<'a> {
    fn default() -> (r: Self)
        ensures
            r.fields() == <TopStructure<'a> as TlvDecodable<'a>>::blank(),
    {
        proof {
            reveal_strlit("");
        }
        let r = TopStructure {
            some_nr: None,
            some_str: "",
            some_signed: 0,
            child: ChildStructure::default(),
            child2: None,
        };
        assert(r.some_str@ =~= Seq::<char>::empty());
        r
    }
}

impl<'a> TlvStructure<'a> for TopStructure<'a> {
    type Fields = TopFields;

    open spec fn fields(&self) -> TopFields {
        TopFields {
            some_nr: self.some_nr,
            some_str: self.some_str@,
            some_signed: self.some_signed,
            child: self.child,
            child2: self.child2,
        }
    }

    open spec fn field_merged(fields: TopFields, stream: StreamView) -> Merged<TopFields> {
        if spec_context_tag(current_tag(stream)) == Some(1u8) {
            let field = <Option<u32> as TlvMergeDecodable<'a>>::merged(fields.some_nr, stream);
            Merged {
                value: TopFields { some_nr: field.value, ..fields },
                stream: field.stream,
                result: field.result,
            }
        } else if spec_context_tag(current_tag(stream)) == Some(2u8) {
            let field = <&'a str as TlvMergeDecodable<'a>>::merged(fields.some_str, stream);
            Merged {
                value: TopFields { some_str: field.value, ..fields },
                stream: field.stream,
                result: field.result,
            }
        } else if spec_context_tag(current_tag(stream)) == Some(3u8) {
            let field = <i16 as TlvMergeDecodable<'a>>::merged(fields.some_signed, stream);
            Merged {
                value: TopFields { some_signed: field.value, ..fields },
                stream: field.stream,
                result: field.result,
            }
        } else if spec_context_tag(current_tag(stream)) == Some(4u8) {
            let field = structure_merged::<ChildStructure>(fields.child, stream);
            Merged {
                value: TopFields { child: field.value, ..fields },
                stream: field.stream,
                result: field.result,
            }
        } else if spec_context_tag(current_tag(stream)) == Some(5u8) {
            let field = structure_merged::<ChildStructure>(
                match fields.child2 {
                    Some(child) => child,
                    None => ChildStructure { some_unsigned: None, some_signed: 0 },
                },
                stream,
            );
            Merged {
                value: TopFields { child2: Some(field.value), ..fields },
                stream: field.stream,
                result: field.result,
            }
        } else {
            Merged {
                value: fields,
                stream: value_skipped(stream).0,
                result: Ok(value_skipped(stream).1),
            }
        }
    }

    proof fn lemma_field_taken(fields: TopFields, stream: StreamView) {
        lemma_skip_shrinks(stream, 1);
        lemma_structure_balanced::<ChildStructure>(fields.child, stream);
        lemma_structure_balanced::<ChildStructure>(
            match fields.child2 {
                Some(child) => child,
                None => ChildStructure { some_unsigned: None, some_signed: 0 },
            },
            stream,
        );
    }

    fn merge_field<S: RecordSource<'a>>(&mut self, tag: TagValue, source: &mut S) -> (r: Result<
        DecodeEnd,
        DecodeError,
    >) {
        let number = context_tag(tag);
        if number == Some(1) {
            self.some_nr.merge_decode(source)
        } else if number == Some(2) {
            self.some_str.merge_decode(source)
        } else if number == Some(3) {
            self.some_signed.merge_decode(source)
        } else if number == Some(4) {
            self.child.merge_decode(source)
        } else if number == Some(5) {
            let mut child = match self.child2 {
                Some(child) => child,
                None => ChildStructure::default(),
            };
            let r = child.merge_decode(source);
            self.child2 = Some(child);
            r
        } else {
            Ok(skip_value(source))
        }
    }
}

impl<'a> TlvMergeDecodable<'a> for TopStructure<'a> {
    type Model = TopFields;

    open spec fn model(&self) -> TopFields {
        self.fields()
    }

    open spec fn merged(model: TopFields, stream: StreamView) -> Merged<TopFields> {
        structure_merged::<TopStructure<'a>>(model, stream)
    }

    fn merge_decode<S: RecordSource<'a>>(&mut self, source: &mut S) -> (r: Result<
        DecodeEnd,
        DecodeError,
    >) {
        merge_structure(self, source)
    }
}

impl<'a> TlvDecodable<'a> for TopStructure<'a> {
    open spec fn blank() -> TopFields {
        TopFields {
            some_nr: None,
            some_str: Seq::empty(),
            some_signed: 0,
            child: ChildStructure { some_unsigned: None, some_signed: 0 },
            child2: None,
        }
    }

    fn decode<S: RecordSource<'a>>(source: &mut S) -> (r: Result<Self, DecodeError>) {
        let mut result = TopStructure::default();
        source.advance();
        match result.merge_decode(source) {
            Err(e) => Err(e),
            Ok(DecodeEnd::StreamFinished) => Err(DecodeError::InvalidNesting),
            Ok(DecodeEnd::DataConsumed) => match source.next() {
                Some(_) => Err(DecodeError::InvalidNesting),
                None => Ok(result),
            },
        }
    }
}

} // verus!
