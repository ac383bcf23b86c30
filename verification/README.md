# yx_bot

The logic of a Discord community bot, verified with Verus: the daily coin
reward, member and balance cards, tracked members and their replies, chat log
listings, and the 1200×630 quote card (author name lookup, decoding and
scaling of the avatar and logo, grey avatar fading to the right, faded
watermark and logo icon, nickname in the role colour, refusal of messages
holding media, font size chosen to fit in width and height, layout, word
wrapping, custom and Unicode emoji split out of the text with the address
of their pictures, compositing, PNG encoding). The request body for the
chat-completion service is built as a JSON document and written by
`serde_json`.

- `src/` is the library. Each module states its contracts over `Seq`, `int`
  and spec functions; the laws are public proof functions beside them.
- `tests/` exercises the library on concrete values.
- `app/` is the bot itself: Discord commands (poise, serenity), SQLite
  (sqlx), HTTP (reqwest), image drawing (image, imageproc, ab_glyph). It
  fetches (the avatar and the emoji pictures at once, the pictures kept in
  a `moka` cache), asks the library what to do or say, draws the text with
  the font at twice the card's size before the library scales the card
  down, and sends.
