# bson

Serialization of values into raw BSON bytes, written and verified in Verus.

- `src/value.rs`: the data model that values are given in.
- `src/element.rs`, `src/little_endian.rs`, `src/text.rs`: the vocabulary of the format.
- `src/model.rs`: what each step of serialization does, as a function on states.
- `src/serializer.rs`, `src/compound.rs`: the serializer, proved to do these steps.
- `src/capacity.rs`: whether a serializer has what a value needs.
- `src/encoding.rs`, `src/reading.rs`, `src/laws.rs`: the document that a value stands for, how
  its bytes are read back, and what holds of every serialization.
- `app/lib.rs`: the bridge to serde and to writers.

The length in front of each document is not computed by the serializer: the lengths are recorded
beforehand and handed to it, in the order in which the documents open.
