# attention_lob

Verified core of an attention-based limit-order-book model.

- `src/direction.rs`: `PriceDirection` and the prediction head's choice of a
  direction from the strict comparisons of the class probabilities.
- `src/heads.rs`: the split of the model width into attention-head column
  blocks and the joining of the heads' outputs, with the laws that the blocks
  are disjoint, lie inside the model width, and that joining puts each head
  back on the columns it was cut from.
- `src/request.rs`: the address of the exchange's order-book request.
- `app/`: the floating-point layers, the order-book snapshot, random
  initialisation and the HTTP client, which call the library above.
